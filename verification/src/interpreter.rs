use vstd::prelude::*;
use crate::token::str_eq;
use crate::semantic::{MTree, Ast, Type, asts_of, lemma_asts_of, params_model, div_trunc, nat_text, nat_string};

verus! {

/// A run-time value: an integer, a boolean, or the result of a statement or
/// of a function body that falls through without a return.
#[derive(Clone, Copy, Debug, PartialEq, Eq, Structural)]
pub enum Value {
    Int(i32),
    Bool(bool),
    Void,
}

/// The decimal text of an integer.
pub open spec fn int_text(i: int) -> Seq<char> {
    if i < 0 {
        "-"@ + nat_text((-i) as nat)
    } else {
        nat_text(i as nat)
    }
}

/// The printed description of a value.
pub open spec fn value_text(v: Value) -> Seq<char> {
    match v {
        Value::Int(i) => "Int("@ + int_text(i as int) + ")"@,
        Value::Bool(b) => if b {
            "Bool(true)"@
        } else {
            "Bool(false)"@
        },
        Value::Void => "Void"@,
    }
}

/// The message for a value that should have been an integer.
pub open spec fn msg_expected_int(v: Value) -> Seq<char> {
    "Expected Int, found "@ + value_text(v)
}

/// The message for a value that should have been a boolean.
pub open spec fn msg_expected_bool(v: Value) -> Seq<char> {
    "Expected Bool, found "@ + value_text(v)
}

/// The message for reading or assigning an unbound variable.
pub open spec fn msg_var_not_found(name: Seq<char>) -> Seq<char> {
    "Variable '"@ + name + "' not found"@
}

/// The message for calling an unregistered function.
pub open spec fn msg_fn_not_found(name: Seq<char>) -> Seq<char> {
    "Function '"@ + name + "' not found"@
}

/// The message for calling a function with the wrong number of arguments.
pub open spec fn msg_fn_arity(name: Seq<char>, np: nat, na: nat) -> Seq<char> {
    "Function '"@ + name + "' expects "@ + nat_text(np) + " arguments, got "@ + nat_text(na)
}

/// The decimal text of an integer; see [`int_text`].
fn int_string(i: i32) -> (r: String)
    ensures
        r@ == int_text(i as int),
{
    if i < 0 {
        let mag: usize = (-(i as i64)) as usize;
        let m = nat_string(mag);
        String::from_str("-").concat(m.as_str())
    } else {
        nat_string(i as usize)
    }
}

/// The printed description of a value; see [`value_text`].
fn value_string(v: Value) -> (r: String)
    ensures
        r@ == value_text(v),
{
    match v {
        Value::Int(i) => {
            let n = int_string(i);
            String::from_str("Int(").concat(n.as_str()).concat(")")
        },
        Value::Bool(b) => {
            if b {
                String::from_str("Bool(true)")
            } else {
                String::from_str("Bool(false)")
            }
        },
        Value::Void => String::from_str("Void"),
    }
}

impl Value {
    /// The integer this value holds; any other value is an error.
    pub fn as_int(&self) -> (r: Result<i32, String>)
        ensures
            match *self {
                Value::Int(i) => r matches Ok(v) && v == i,
                _ => r matches Err(m) && m@ == msg_expected_int(*self),
            },
    {
        match self {
            Value::Int(i) => Ok(*i),
            _ => {
                let d = value_string(*self);
                Err(String::from_str("Expected Int, found ").concat(d.as_str()))
            },
        }
    }

    /// The boolean this value holds; any other value is an error.
    pub fn as_bool(&self) -> (r: Result<bool, String>)
        ensures
            match *self {
                Value::Bool(b) => r matches Ok(v) && v == b,
                _ => r matches Err(m) && m@ == msg_expected_bool(*self),
            },
    {
        match self {
            Value::Bool(b) => Ok(*b),
            _ => {
                let d = value_string(*self);
                Err(String::from_str("Expected Bool, found ").concat(d.as_str()))
            },
        }
    }
}

/// The model of one scope frame: its bindings, oldest first.
pub open spec fn frame_model(f: Seq<(String, Value)>) -> Seq<(Seq<char>, Value)> {
    f.map_values(|p: (String, Value)| (p.0@, p.1))
}

/// The model of an environment: its frames, outermost first.
pub open spec fn env_model(scopes: Seq<Vec<(String, Value)>>) -> Seq<Seq<(Seq<char>, Value)>> {
    scopes.map_values(|f: Vec<(String, Value)>| frame_model(f@))
}

/// The binding of `name` in one frame: the latest wins.
pub open spec fn frame_find(fm: Seq<(Seq<char>, Value)>, name: Seq<char>) -> Option<Value>
    decreases fm.len(),
{
    if fm.len() == 0 {
        None
    } else if fm.last().0 == name {
        Some(fm.last().1)
    } else {
        frame_find(fm.drop_last(), name)
    }
}

/// The value of `name`, searching frames innermost to outermost.
pub open spec fn env_get_s(env: Seq<Seq<(Seq<char>, Value)>>, name: Seq<char>) -> Option<Value>
    decreases env.len(),
{
    if env.len() == 0 {
        None
    } else {
        match frame_find(env.last(), name) {
            Some(v) => Some(v),
            None => env_get_s(env.drop_last(), name),
        }
    }
}

/// Bind `name` in the innermost frame that already holds it, searching
/// innermost to outermost; an unbound name leaves nothing to assign.
pub open spec fn env_set_s(env: Seq<Seq<(Seq<char>, Value)>>, name: Seq<char>, v: Value) -> Option<
    Seq<Seq<(Seq<char>, Value)>>,
>
    decreases env.len(),
{
    if env.len() == 0 {
        None
    } else if frame_find(env.last(), name) matches Some(_) {
        Some(env.drop_last().push(env.last().push((name, v))))
    } else {
        match env_set_s(env.drop_last(), name, v) {
            Some(e2) => Some(e2.push(env.last())),
            None => None,
        }
    }
}

/// Bind `name` in the innermost frame; with no frame there is nothing to
/// bind.
pub open spec fn env_declare_s(
    env: Seq<Seq<(Seq<char>, Value)>>,
    name: Seq<char>,
    v: Value,
) -> Seq<Seq<(Seq<char>, Value)>> {
    if env.len() == 0 {
        env
    } else {
        env.drop_last().push(env.last().push((name, v)))
    }
}

/// The ordered stack of scope frames, innermost last. A frame is pushed on
/// function call and on each nested block and popped on exit; lookup and
/// assignment search innermost to outermost; declaration targets the
/// innermost frame.
pub struct Environment {
    pub scopes: Vec<Vec<(String, Value)>>,
}

impl Environment {
    /// The model of this environment.
    pub open spec fn model(self) -> Seq<Seq<(Seq<char>, Value)>> {
        env_model(self.scopes@)
    }

    /// An environment of one empty frame.
    pub fn new() -> (r: Self)
        ensures
            r.model() == seq![Seq::<(Seq<char>, Value)>::empty()],
    {
        let mut scopes: Vec<Vec<(String, Value)>> = Vec::new();
        scopes.push(Vec::new());
        let r = Environment { scopes };
        proof {
            assert(frame_model(Seq::<(String, Value)>::empty()) =~= Seq::<
                (Seq<char>, Value),
            >::empty());
            assert(r.model() =~= seq![Seq::<(Seq<char>, Value)>::empty()]);
        }
        r
    }

    /// Push a fresh innermost frame.
    pub fn push_scope(&mut self)
        ensures
            final(self).model() == old(self).model().push(Seq::<(Seq<char>, Value)>::empty()),
    {
        self.scopes.push(Vec::new());
        proof {
            assert(frame_model(Seq::<(String, Value)>::empty()) =~= Seq::<
                (Seq<char>, Value),
            >::empty());
            assert(self.model() =~= old(self).model().push(Seq::<(Seq<char>, Value)>::empty()));
        }
    }

    /// Pop the innermost frame; the outermost frame stays.
    pub fn pop_scope(&mut self)
        ensures
            final(self).model() == (if old(self).model().len() > 1 {
                old(self).model().drop_last()
            } else {
                old(self).model()
            }),
    {
        if self.scopes.len() > 1 {
            self.scopes.pop();
            proof {
                assert(self.model() =~= old(self).model().drop_last());
            }
        }
    }

    /// Bind `name` in the innermost frame.
    pub fn declare(&mut self, name: String, value: Value)
        ensures
            final(self).model() == env_declare_s(old(self).model(), name@, value),
    {
        let ghost nm = name@;
        if self.scopes.len() > 0 {
            let last = self.scopes.len() - 1;
            let mut fr = self.scopes.remove(last);
            let ghost frm = frame_model(fr@);
            fr.push((name, value));
            proof {
                assert(frame_model(fr@) =~= frm.push((nm, value)));
            }
            self.scopes.push(fr);
            proof {
                assert(old(self).model().last() == frm);
                assert(self.model() =~= old(self).model().drop_last().push(frm.push((nm, value))));
            }
        }
    }

    /// Assign `name` in the innermost frame that holds it; an unbound name
    /// is an error and changes nothing.
    pub fn set(&mut self, name: &str, value: Value) -> (r: Result<(), String>)
        ensures
            match env_set_s(old(self).model(), name@, value) {
                Some(e2) => r matches Ok(_) && final(self).model() == e2,
                None => r matches Err(m) && m@ == msg_var_not_found(name@) && final(self).model()
                    == old(self).model(),
            },
    {
        let ghost m0 = self.model();
        let mut i: usize = self.scopes.len();
        proof {
            assert(m0.subrange(0, m0.len() as int) =~= m0);
        }
        while i > 0
            invariant
                i <= self.scopes@.len(),
                self.scopes@ == old(self).scopes@,
                m0 == self.model(),
                env_set_s(m0, name@, value) == (match env_set_s(
                    m0.subrange(0, i as int),
                    name@,
                    value,
                ) {
                    Some(e2) => Some(e2 + m0.subrange(i as int, m0.len() as int)),
                    None => None,
                }),
            decreases i,
        {
            i = i - 1;
            let ghost mi = m0.subrange(0, i + 1);
            proof {
                assert(mi.last() == m0[i as int]);
                assert(mi.drop_last() =~= m0.subrange(0, i as int));
            }
            if frame_contains(&self.scopes[i], name) {
                let mut fr = self.scopes.remove(i);
                let ghost frm = frame_model(fr@);
                fr.push((String::from_str(name), value));
                proof {
                    assert(frame_model(fr@) =~= frm.push((name@, value)));
                }
                self.scopes.insert(i, fr);
                proof {
                    assert(frm == m0[i as int]);
                    let e2 = mi.drop_last().push(frm.push((name@, value)));
                    assert(env_set_s(mi, name@, value) == Some(e2));
                    assert(self.model() =~= e2 + m0.subrange(i as int + 1, m0.len() as int));
                }
                return Ok(());
            }
            proof {
                assert(m0.subrange(i as int, m0.len() as int) =~= seq![m0[i as int]] + m0.subrange(
                    i as int + 1,
                    m0.len() as int,
                ));
                if let Some(e2) = env_set_s(m0.subrange(0, i as int), name@, value) {
                    assert((e2.push(m0[i as int])) + m0.subrange(i as int + 1, m0.len() as int)
                        =~= e2 + m0.subrange(i as int, m0.len() as int));
                }
            }
        }
        proof {
            assert(m0.subrange(0, 0) =~= Seq::<Seq<(Seq<char>, Value)>>::empty());
        }
        Err(String::from_str("Variable '").concat(name).concat("' not found"))
    }

    /// The value of `name`, searching frames innermost to outermost; an
    /// unbound name is an error.
    pub fn get(&self, name: &str) -> (r: Result<Value, String>)
        ensures
            match env_get_s(self.model(), name@) {
                Some(v) => r matches Ok(v2) && v2 == v,
                None => r matches Err(m) && m@ == msg_var_not_found(name@),
            },
    {
        let ghost m0 = self.model();
        let mut i: usize = self.scopes.len();
        proof {
            assert(m0.subrange(0, m0.len() as int) =~= m0);
        }
        while i > 0
            invariant
                i <= self.scopes@.len(),
                m0 == self.model(),
                env_get_s(m0, name@) == env_get_s(m0.subrange(0, i as int), name@),
            decreases i,
        {
            i = i - 1;
            let ghost mi = m0.subrange(0, i + 1);
            proof {
                assert(mi.last() == m0[i as int]);
                assert(mi.drop_last() =~= m0.subrange(0, i as int));
            }
            if let Some(v) = frame_get(&self.scopes[i], name) {
                return Ok(v);
            }
        }
        proof {
            assert(m0.subrange(0, 0) =~= Seq::<Seq<(Seq<char>, Value)>>::empty());
        }
        Err(String::from_str("Variable '").concat(name).concat("' not found"))
    }
}

/// The binding of `name` in one frame, if any; see [`frame_find`].
fn frame_get(f: &Vec<(String, Value)>, name: &str) -> (r: Option<Value>)
    ensures
        r == frame_find(frame_model(f@), name@),
{
    let ghost m = frame_model(f@);
    let mut i: usize = f.len();
    proof {
        assert(m.subrange(0, m.len() as int) =~= m);
    }
    while i > 0
        invariant
            i <= f@.len(),
            m == frame_model(f@),
            frame_find(m, name@) == frame_find(m.subrange(0, i as int), name@),
        decreases i,
    {
        i = i - 1;
        let ghost mi = m.subrange(0, i + 1);
        proof {
            assert(mi.last() == m[i as int]);
            assert(mi.drop_last() =~= m.subrange(0, i as int));
        }
        if str_eq(f[i].0.as_str(), name) {
            return Some(f[i].1);
        }
    }
    proof {
        assert(m.subrange(0, 0) =~= Seq::<(Seq<char>, Value)>::empty());
    }
    None
}

/// Whether one frame binds `name`; see [`frame_find`].
fn frame_contains(f: &Vec<(String, Value)>, name: &str) -> (r: bool)
    ensures
        r == (frame_find(frame_model(f@), name@) matches Some(_)),
{
    frame_get(f, name).is_some()
}

/// A registered function: its name, ordered parameters, declared return
/// type, and body block.
pub struct FuncDef {
    pub name: String,
    pub params: Vec<(String, Type)>,
    pub ret_type: Type,
    pub body: MTree,
}

/// The model of a registered function.
pub ghost struct FuncM {
    pub name: Seq<char>,
    pub params: Seq<(Seq<char>, Type)>,
    pub ret: Type,
    pub body: Ast,
}

/// The models of a function table, in registration order.
pub open spec fn funcs_model(s: Seq<FuncDef>) -> Seq<FuncM> {
    s.map_values(
        |f: FuncDef| FuncM {
            name: f.name@,
            params: params_model(f.params@),
            ret: f.ret_type,
            body: f.body@,
        },
    )
}

/// The registered function called `name`: the latest registration wins.
pub open spec fn fn_find(fns: Seq<FuncM>, name: Seq<char>) -> Option<FuncM>
    decreases fns.len(),
{
    if fns.len() == 0 {
        None
    } else if fns.last().name == name {
        Some(fns.last())
    } else {
        fn_find(fns.drop_last(), name)
    }
}

/// The functions a program registers, in declaration order.
pub open spec fn regs_s(funcs: Seq<Ast>) -> Seq<FuncM>
    decreases funcs,
{
    if funcs.len() == 0 {
        Seq::empty()
    } else {
        match funcs[0] {
            Ast::FuncDecl { name, params, ret_type, body } => seq![
                FuncM { name, params, ret: ret_type, body: *body },
            ] + regs_s(funcs.drop_first()),
            _ => regs_s(funcs.drop_first()),
        }
    }
}

/// The interpreter state: the environment's frames and the values printed so
/// far.
pub ghost struct St {
    pub env: Seq<Seq<(Seq<char>, Value)>>,
    pub out: Seq<Value>,
}

/// The frame binding a function's parameters to its arguments positionally.
pub open spec fn bind_frame(params: Seq<(Seq<char>, Type)>, vals: Seq<Value>) -> Seq<
    (Seq<char>, Value),
> {
    Seq::new(params.len(), |i: int| (params[i].0, vals[i]))
}

/// Popping the innermost frame; the outermost frame stays.
pub open spec fn pop_s(env: Seq<Seq<(Seq<char>, Value)>>) -> Seq<Seq<(Seq<char>, Value)>> {
    if env.len() > 1 {
        env.drop_last()
    } else {
        env
    }
}

/// The default value of a declared type, used by a let statement without an
/// initializer.
pub open spec fn default_value(ty: Type) -> Value {
    match ty {
        Type::Int => Value::Int(0),
        Type::Bool => Value::Bool(false),
        Type::Unknown => Value::Int(0),
    }
}

/// A binary operator applied to two evaluated operands. Both operands are
/// always evaluated first, so the logical operators do not short-circuit.
/// Division by zero is a runtime error; so is any arithmetic result outside
/// `i32`, rather than a panic.
pub open spec fn apply_binop_s(op: Seq<char>, l: Value, r: Value) -> Result<Value, Seq<char>> {
    if op == "+"@ || op == "-"@ || op == "*"@ {
        match l {
            Value::Int(a) => match r {
                Value::Int(b) => {
                    let v = if op == "+"@ {
                        a + b
                    } else if op == "-"@ {
                        a - b
                    } else {
                        a * b
                    };
                    if i32::MIN <= v <= i32::MAX {
                        Ok(Value::Int(v as i32))
                    } else {
                        Err("Arithmetic overflow"@)
                    }
                },
                _ => Err(msg_expected_int(r)),
            },
            _ => Err(msg_expected_int(l)),
        }
    } else if op == "/"@ {
        match r {
            Value::Int(b) => {
                if b == 0 {
                    Err("Division by zero"@)
                } else {
                    match l {
                        Value::Int(a) => {
                            if a == i32::MIN && b == -1 {
                                Err("Arithmetic overflow"@)
                            } else {
                                Ok(Value::Int(div_trunc(a as int, b as int) as i32))
                            }
                        },
                        _ => Err(msg_expected_int(l)),
                    }
                }
            },
            _ => Err(msg_expected_int(r)),
        }
    } else if op == "=="@ || op == "!="@ {
        match (l, r) {
            (Value::Int(a), Value::Int(b)) => Ok(
                Value::Bool(if op == "=="@ {
                    a == b
                } else {
                    a != b
                }),
            ),
            (Value::Bool(a), Value::Bool(b)) => Ok(
                Value::Bool(if op == "=="@ {
                    a == b
                } else {
                    a != b
                }),
            ),
            _ => if op == "=="@ {
                Err("Type mismatch in =="@)
            } else {
                Err("Type mismatch in !="@)
            },
        }
    } else if op == "<"@ || op == ">"@ || op == "<="@ || op == ">="@ {
        match l {
            Value::Int(a) => match r {
                Value::Int(b) => Ok(
                    Value::Bool(
                        if op == "<"@ {
                            a < b
                        } else if op == ">"@ {
                            a > b
                        } else if op == "<="@ {
                            a <= b
                        } else {
                            a >= b
                        },
                    ),
                ),
                _ => Err(msg_expected_int(r)),
            },
            _ => Err(msg_expected_int(l)),
        }
    } else if op == "&&"@ || op == "||"@ {
        match l {
            Value::Bool(a) => match r {
                Value::Bool(b) => Ok(
                    Value::Bool(if op == "&&"@ {
                        a && b
                    } else {
                        a || b
                    }),
                ),
                _ => Err(msg_expected_bool(r)),
            },
            _ => Err(msg_expected_bool(l)),
        }
    } else {
        Err("Unknown operator: "@ + op)
    }
}

/// Call a registered function: look it up, check the argument count, bind
/// the arguments in a fresh frame, run the body, and pop the frame on every
/// normal exit; a body that falls through yields the void value. Each call
/// spends one unit of the step budget.
pub open spec fn call_s(fns: Seq<FuncM>, st: St, name: Seq<char>, vals: Seq<Value>, fuel: nat) -> (
    St,
    Result<Value, Seq<char>>,
)
    decreases fuel, 0int, (Ast::LitInt { value: 0 }), 0int
{
    match fn_find(fns, name) {
        None => (st, Err(msg_fn_not_found(name))),
        Some(f) => {
            if f.params.len() != vals.len() {
                (st, Err(msg_fn_arity(name, f.params.len(), vals.len())))
            } else if fuel == 0 {
                (st, Err("Execution limit reached"@))
            } else {
                let st2 = St { env: st.env.push(bind_frame(f.params, vals)), out: st.out };
                let (st3, br) = exec_block_s(fns, st2, f.body, (fuel - 1) as nat);
                match br {
                    Err(m) => (st3, Err(m)),
                    Ok(opt) => {
                        let v = match opt {
                            Some(v) => v,
                            None => Value::Void,
                        };
                        (St { env: pop_s(st3.env), out: st3.out }, Ok(v))
                    },
                }
            }
        },
    }
}

/// Evaluate one expression: literals are self-evaluating, identifiers
/// resolve innermost-first, calls evaluate their arguments left to right,
/// binary operators evaluate both operands before the operator is
/// inspected, and an assignment yields the assigned value. A statement node
/// in expression position cannot be evaluated.
pub open spec fn eval_expr_s(fns: Seq<FuncM>, st: St, e: Ast, fuel: nat) -> (
    St,
    Result<Value, Seq<char>>,
)
    decreases fuel, 1int, e, 0int
{
    match e {
        Ast::LitInt { value } => (st, Ok(Value::Int(value))),
        Ast::LitBool { value } => (st, Ok(Value::Bool(value))),
        Ast::Id { name } => match env_get_s(st.env, name) {
            Some(v) => (st, Ok(v)),
            None => (st, Err(msg_var_not_found(name))),
        },
        Ast::Call { name, args } => {
            let (st1, ar) = eval_args_s(fns, st, args, fuel);
            match ar {
                Err(m) => (st1, Err(m)),
                Ok(vals) => call_s(fns, st1, name, vals, fuel),
            }
        },
        Ast::Expr { left, op, right } => {
            if op == "!"@ {
                let (st1, r) = eval_expr_s(fns, st, *right, fuel);
                match r {
                    Err(m) => (st1, Err(m)),
                    Ok(v) => match v {
                        Value::Bool(b) => (st1, Ok(Value::Bool(!b))),
                        _ => (st1, Err(msg_expected_bool(v))),
                    },
                }
            } else if op == "unary-"@ {
                let (st1, r) = eval_expr_s(fns, st, *right, fuel);
                match r {
                    Err(m) => (st1, Err(m)),
                    Ok(v) => match v {
                        Value::Int(i) => {
                            if i == i32::MIN {
                                (st1, Err("Arithmetic overflow"@))
                            } else {
                                (st1, Ok(Value::Int((-i) as i32)))
                            }
                        },
                        _ => (st1, Err(msg_expected_int(v))),
                    },
                }
            } else {
                let (st1, lr) = eval_expr_s(fns, st, *left, fuel);
                match lr {
                    Err(m) => (st1, Err(m)),
                    Ok(lv) => {
                        let (st2, rr) = eval_expr_s(fns, st1, *right, fuel);
                        match rr {
                            Err(m) => (st2, Err(m)),
                            Ok(rv) => (st2, apply_binop_s(op, lv, rv)),
                        }
                    },
                }
            }
        },
        Ast::Assign { id, expr } => {
            let (st1, r) = eval_expr_s(fns, st, *expr, fuel);
            match r {
                Err(m) => (st1, Err(m)),
                Ok(v) => match env_set_s(st1.env, id, v) {
                    Some(e2) => (St { env: e2, out: st1.out }, Ok(v)),
                    None => (st1, Err(msg_var_not_found(id))),
                },
            }
        },
        _ => (st, Err("Cannot evaluate expression"@)),
    }
}

/// Evaluate a call's arguments left to right.
pub open spec fn eval_args_s(fns: Seq<FuncM>, st: St, args: Seq<Ast>, fuel: nat) -> (
    St,
    Result<Seq<Value>, Seq<char>>,
)
    decreases fuel, 1int, args, 1int
{
    if args.len() == 0 {
        (st, Ok(Seq::empty()))
    } else {
        let (st1, r) = eval_expr_s(fns, st, args[0], fuel);
        match r {
            Err(m) => (st1, Err(m)),
            Ok(v) => {
                let (st2, rest) = eval_args_s(fns, st1, args.drop_first(), fuel);
                match rest {
                    Err(m) => (st2, Err(m)),
                    Ok(vs) => (st2, Ok(seq![v] + vs)),
                }
            },
        }
    }
}

/// Run a body, which must be a block; its statements run in order.
pub open spec fn exec_block_s(fns: Seq<FuncM>, st: St, b: Ast, fuel: nat) -> (
    St,
    Result<Option<Value>, Seq<char>>,
)
    decreases fuel, 3int, b, 1int
{
    match b {
        Ast::Block { stmts } => exec_stmts_s(fns, st, stmts, fuel),
        _ => (st, Err("Expected BLOCK node"@)),
    }
}

/// Run statements in order; a return value short-circuits the rest.
pub open spec fn exec_stmts_s(fns: Seq<FuncM>, st: St, stmts: Seq<Ast>, fuel: nat) -> (
    St,
    Result<Option<Value>, Seq<char>>,
)
    decreases fuel, 3int, stmts, 0int
{
    if stmts.len() == 0 {
        (st, Ok(None))
    } else {
        let (st1, r) = exec_stmt_s(fns, st, stmts[0], fuel);
        match r {
            Err(m) => (st1, Err(m)),
            Ok(Some(v)) => (st1, Ok(Some(v))),
            Ok(None) => exec_stmts_s(fns, st1, stmts.drop_first(), fuel),
        }
    }
}

/// Run one statement. A return statement yields its value, which bubbles up
/// through enclosing blocks and loops to the call boundary; a while loop
/// re-evaluates its condition before every iteration and spends one unit of
/// the step budget per iteration; printing appends to the output.
pub open spec fn exec_stmt_s(fns: Seq<FuncM>, st: St, stmt: Ast, fuel: nat) -> (
    St,
    Result<Option<Value>, Seq<char>>,
)
    decreases fuel, 3int, stmt, 2int
{
    match stmt {
        Ast::LetStmt { id, ty, expr } => {
            match expr {
                Some(e) => {
                    let (st1, r) = eval_expr_s(fns, st, *e, fuel);
                    match r {
                        Err(m) => (st1, Err(m)),
                        Ok(v) => (
                            St { env: env_declare_s(st1.env, id, v), out: st1.out },
                            Ok(None),
                        ),
                    }
                },
                None => (
                    St { env: env_declare_s(st.env, id, default_value(ty)), out: st.out },
                    Ok(None),
                ),
            }
        },
        Ast::Assign { id, expr } => {
            let (st1, r) = eval_expr_s(fns, st, *expr, fuel);
            match r {
                Err(m) => (st1, Err(m)),
                Ok(v) => match env_set_s(st1.env, id, v) {
                    Some(e2) => (St { env: e2, out: st1.out }, Ok(None)),
                    None => (st1, Err(msg_var_not_found(id))),
                },
            }
        },
        Ast::RtrnStmt { expr } => {
            let (st1, r) = eval_expr_s(fns, st, *expr, fuel);
            match r {
                Err(m) => (st1, Err(m)),
                Ok(v) => (st1, Ok(Some(v))),
            }
        },
        Ast::IfStmt { cond, then_block, else_block } => {
            let (st1, r) = eval_expr_s(fns, st, *cond, fuel);
            match r {
                Err(m) => (st1, Err(m)),
                Ok(v) => match v {
                    Value::Bool(b) => {
                        if b {
                            exec_block_s(fns, st1, *then_block, fuel)
                        } else {
                            match else_block {
                                Some(eb) => exec_block_s(fns, st1, *eb, fuel),
                                None => (st1, Ok(None)),
                            }
                        }
                    },
                    _ => (st1, Err(msg_expected_bool(v))),
                },
            }
        },
        Ast::WhileStmt { cond, body } => {
            let (st1, r) = eval_expr_s(fns, st, *cond, fuel);
            match r {
                Err(m) => (st1, Err(m)),
                Ok(v) => match v {
                    Value::Bool(b) => {
                        if !b {
                            (st1, Ok(None))
                        } else {
                            let (st2, br) = exec_block_s(fns, st1, *body, fuel);
                            match br {
                                Err(m) => (st2, Err(m)),
                                Ok(Some(v2)) => (st2, Ok(Some(v2))),
                                Ok(None) => {
                                    if fuel == 0 {
                                        (st2, Err("Execution limit reached"@))
                                    } else {
                                        exec_stmt_s(fns, st2, stmt, (fuel - 1) as nat)
                                    }
                                },
                            }
                        }
                    },
                    _ => (st1, Err(msg_expected_bool(v))),
                },
            }
        },
        Ast::PrintStmt { expr } => {
            let (st1, r) = eval_expr_s(fns, st, *expr, fuel);
            match r {
                Err(m) => (st1, Err(m)),
                Ok(v) => (St { env: st1.env, out: st1.out.push(v) }, Ok(None)),
            }
        },
        Ast::Block { stmts } => {
            // a nested block runs in a frame of its own, popped on exit
            let st1 = St { env: st.env.push(Seq::empty()), out: st.out };
            let (st2, r) = exec_stmts_s(fns, st1, stmts, fuel);
            match r {
                Err(m) => (st2, Err(m)),
                Ok(opt) => (St { env: pop_s(st2.env), out: st2.out }, Ok(opt)),
            }
        },
        _ => {
            let (st1, r) = eval_expr_s(fns, st, stmt, fuel);
            match r {
                Err(m) => (st1, Err(m)),
                Ok(_) => (st1, Ok(None)),
            }
        },
    }
}

/// A whole program run: register every top-level function declaration, then
/// call `main` with no arguments. The result is the final function table,
/// the final state, and the run's outcome.
pub open spec fn run_s(prog: Ast, env0: Seq<Seq<(Seq<char>, Value)>>, out0: Seq<Value>, fns0: Seq<
    FuncM,
>, fuel: nat) -> (Seq<FuncM>, St, Result<(), Seq<char>>) {
    let fns = fns0 + (match prog {
        Ast::Start { funcs } => regs_s(funcs),
        _ => Seq::empty(),
    });
    let (st1, r) = call_s(fns, St { env: env0, out: out0 }, "main"@, Seq::empty(), fuel);
    match r {
        Ok(_) => (fns, st1, Ok(())),
        Err(m) => (fns, st1, Err("Runtime error: "@ + m)),
    }
}

/// The step budget of a run: while loops and calls each spend one unit, so
/// the budget is unreachable by any computation that could finish.
pub const STEP_LIMIT: u64 = 18446744073709551615;

/// The position of `name` in the function table, searching the latest
/// registration first.
fn find_fn(fns: &Vec<FuncDef>, name: &str) -> (r: Option<usize>)
    ensures
        match r {
            Some(k) => k < fns@.len() && fn_find(funcs_model(fns@), name@) == Some(
                funcs_model(fns@)[k as int],
            ),
            None => fn_find(funcs_model(fns@), name@) is None,
        },
{
    let ghost m = funcs_model(fns@);
    let mut i: usize = fns.len();
    proof {
        assert(m.subrange(0, m.len() as int) =~= m);
    }
    while i > 0
        invariant
            i <= fns@.len(),
            m == funcs_model(fns@),
            fn_find(m, name@) == fn_find(m.subrange(0, i as int), name@),
        decreases i,
    {
        i = i - 1;
        let ghost mi = m.subrange(0, i + 1);
        proof {
            assert(mi.last() == m[i as int]);
            assert(mi.drop_last() =~= m.subrange(0, i as int));
        }
        if str_eq(fns[i].name.as_str(), name) {
            return Some(i);
        }
    }
    proof {
        assert(m.subrange(0, 0) =~= Seq::<FuncM>::empty());
    }
    None
}

/// The frame binding a function's parameters to its arguments; see
/// [`bind_frame`].
fn bind_frame_x(params: &Vec<(String, Type)>, vals: &Vec<Value>) -> (r: Vec<(String, Value)>)
    requires
        params@.len() == vals@.len(),
    ensures
        frame_model(r@) == bind_frame(params_model(params@), vals@),
{
    let mut r: Vec<(String, Value)> = Vec::new();
    let mut i: usize = 0;
    while i < params.len()
        invariant
            i <= params@.len() == vals@.len(),
            r@.len() == i,
            forall|j: int| 0 <= j < i ==> #[trigger] r@[j].0@ == params@[j].0@ && r@[j].1
                == vals@[j],
        decreases params@.len() - i,
    {
        r.push((params[i].0.clone(), vals[i]));
        i = i + 1;
    }
    proof {
        assert(frame_model(r@) =~= bind_frame(params_model(params@), vals@));
    }
    r
}

/// Apply a binary operator to two evaluated operands; see [`apply_binop_s`].
#[verifier::rlimit(100)]
fn apply_binop(op: &String, l: Value, r: Value) -> (res: Result<Value, String>)
    ensures
        match res {
            Ok(v) => apply_binop_s(op@, l, r) == Ok::<Value, Seq<char>>(v),
            Err(m) => apply_binop_s(op@, l, r) matches Err(mm) && m@ == mm,
        },
{
    if str_eq(op.as_str(), "+") || str_eq(op.as_str(), "-") || str_eq(op.as_str(), "*") {
        let a = l.as_int()?;
        let b = r.as_int()?;
        let v: i64 = if str_eq(op.as_str(), "+") {
            a as i64 + b as i64
        } else if str_eq(op.as_str(), "-") {
            a as i64 - b as i64
        } else {
            proof {
                assert((-0x8000_0000_0000_0000 <= (a as int) * (b as int)
                    <= 0x7fff_ffff_ffff_ffff) && ((a as int) * (b as int) == (a as i64 as int) * (
                b as i64 as int))) by (nonlinear_arith)
                    requires
                        -0x8000_0000 <= a as int <= 0x7fff_ffff,
                        -0x8000_0000 <= b as int <= 0x7fff_ffff,
                {
                }
            }
            a as i64 * b as i64
        };
        if i32::MIN as i64 <= v && v <= i32::MAX as i64 {
            Ok(Value::Int(v as i32))
        } else {
            Err(String::from_str("Arithmetic overflow"))
        }
    } else if str_eq(op.as_str(), "/") {
        let b = r.as_int()?;
        if b == 0 {
            return Err(String::from_str("Division by zero"));
        }
        let a = l.as_int()?;
        if a == i32::MIN && b == -1 {
            return Err(String::from_str("Arithmetic overflow"));
        }
        Ok(Value::Int(crate::semantic::div_trunc_i32(a, b)))
    } else if str_eq(op.as_str(), "==") || str_eq(op.as_str(), "!=") {
        let eq = str_eq(op.as_str(), "==");
        match (l, r) {
            (Value::Int(a), Value::Int(b)) => Ok(
                Value::Bool(if eq {
                    a == b
                } else {
                    a != b
                }),
            ),
            (Value::Bool(a), Value::Bool(b)) => Ok(
                Value::Bool(if eq {
                    a == b
                } else {
                    a != b
                }),
            ),
            _ => {
                if eq {
                    Err(String::from_str("Type mismatch in =="))
                } else {
                    Err(String::from_str("Type mismatch in !="))
                }
            },
        }
    } else if str_eq(op.as_str(), "<") || str_eq(op.as_str(), ">") || str_eq(op.as_str(), "<=")
        || str_eq(op.as_str(), ">=") {
        let a = l.as_int()?;
        let b = r.as_int()?;
        Ok(
            Value::Bool(
                if str_eq(op.as_str(), "<") {
                    a < b
                } else if str_eq(op.as_str(), ">") {
                    a > b
                } else if str_eq(op.as_str(), "<=") {
                    a <= b
                } else {
                    a >= b
                },
            ),
        )
    } else if str_eq(op.as_str(), "&&") || str_eq(op.as_str(), "||") {
        let a = l.as_bool()?;
        let b = r.as_bool()?;
        Ok(
            Value::Bool(if str_eq(op.as_str(), "&&") {
                a && b
            } else {
                a || b
            }),
        )
    } else {
        Err(String::from_str("Unknown operator: ").concat(op.as_str()))
    }
}

/// Evaluate one expression; see [`eval_expr_s`].
#[verifier::rlimit(100)]
fn eval_expr_x(
    fns: &Vec<FuncDef>,
    env: &mut Environment,
    out: &mut Vec<Value>,
    e: &MTree,
    fuel: u64,
) -> (r: Result<Value, String>)
    ensures
        ({
            let (st2, r2) = eval_expr_s(
                funcs_model(fns@),
                St { env: old(env).model(), out: old(out)@ },
                e@,
                fuel as nat,
            );
            final(env).model() == st2.env && final(out)@ == st2.out && (match r {
                Ok(v) => r2 == Ok::<Value, Seq<char>>(v),
                Err(m) => r2 matches Err(mm) && m@ == mm,
            })
        }),
    decreases fuel, 1int, *e, 0int
{
    match e {
        MTree::LIT_INT { value } => Ok(Value::Int(*value)),
        MTree::LIT_BOOL { value } => Ok(Value::Bool(*value)),
        MTree::ID { name } => env.get(name.as_str()),
        MTree::CALL { name, args } => {
            proof {
                lemma_asts_of(args@);
                assert(asts_of(args@).subrange(0, args@.len() as int) =~= asts_of(args@));
            }
            let vals = eval_args_x(fns, env, out, args, 0, fuel)?;
            call_function(fns, env, out, name.as_str(), vals, fuel)
        },
        MTree::EXPR { left, op, right } => {
            if str_eq(op.as_str(), "!") {
                let v = eval_expr_x(fns, env, out, right, fuel)?;
                let b = v.as_bool()?;
                Ok(Value::Bool(!b))
            } else if str_eq(op.as_str(), "unary-") {
                let v = eval_expr_x(fns, env, out, right, fuel)?;
                match v {
                    Value::Int(i) => {
                        if i == i32::MIN {
                            Err(String::from_str("Arithmetic overflow"))
                        } else {
                            Ok(Value::Int(-i))
                        }
                    },
                    _ => {
                        let d = value_string(v);
                        Err(String::from_str("Expected Int, found ").concat(d.as_str()))
                    },
                }
            } else {
                let lv = eval_expr_x(fns, env, out, left, fuel)?;
                let rv = eval_expr_x(fns, env, out, right, fuel)?;
                apply_binop(op, lv, rv)
            }
        },
        MTree::ASSIGN { id, expr } => {
            let v = eval_expr_x(fns, env, out, expr, fuel)?;
            env.set(id.as_str(), v)?;
            Ok(v)
        },
        _ => Err(String::from_str("Cannot evaluate expression")),
    }
}

/// Evaluate the arguments `v[i..]` left to right; see [`eval_args_s`].
fn eval_args_x(
    fns: &Vec<FuncDef>,
    env: &mut Environment,
    out: &mut Vec<Value>,
    v: &Vec<MTree>,
    i: usize,
    fuel: u64,
) -> (r: Result<Vec<Value>, String>)
    requires
        i <= v@.len(),
    ensures
        ({
            let (st2, r2) = eval_args_s(
                funcs_model(fns@),
                St { env: old(env).model(), out: old(out)@ },
                asts_of(v@).subrange(i as int, v@.len() as int),
                fuel as nat,
            );
            final(env).model() == st2.env && final(out)@ == st2.out && (match r {
                Ok(vs) => r2 == Ok::<Seq<Value>, Seq<char>>(vs@),
                Err(m) => r2 matches Err(mm) && m@ == mm,
            })
        }),
    decreases fuel, 1int, v@, v@.len() - i
{
    proof {
        lemma_asts_of(v@);
    }
    let ghost suffix = asts_of(v@).subrange(i as int, v@.len() as int);
    if i == v.len() {
        let r: Vec<Value> = Vec::new();
        proof {
            assert(suffix =~= Seq::<Ast>::empty());
            assert(r@ =~= Seq::<Value>::empty());
        }
        return Ok(r);
    }
    proof {
        assert(suffix[0] == v@[i as int]@);
        assert(suffix.drop_first() =~= asts_of(v@).subrange(i + 1, v@.len() as int));
    }
    let h = eval_expr_x(fns, env, out, &v[i], fuel)?;
    let mut rest = eval_args_x(fns, env, out, v, i + 1, fuel)?;
    let ghost restm = rest@;
    rest.insert(0, h);
    proof {
        assert(rest@ =~= seq![h] + restm);
    }
    Ok(rest)
}

/// Call a registered function; see [`call_s`].
fn call_function(
    fns: &Vec<FuncDef>,
    env: &mut Environment,
    out: &mut Vec<Value>,
    name: &str,
    args: Vec<Value>,
    fuel: u64,
) -> (r: Result<Value, String>)
    ensures
        ({
            let (st2, r2) = call_s(
                funcs_model(fns@),
                St { env: old(env).model(), out: old(out)@ },
                name@,
                args@,
                fuel as nat,
            );
            final(env).model() == st2.env && final(out)@ == st2.out && (match r {
                Ok(v) => r2 == Ok::<Value, Seq<char>>(v),
                Err(m) => r2 matches Err(mm) && m@ == mm,
            })
        }),
    decreases fuel, 0int, (MTree::LIT_INT { value: 0 }), 0int
{
    let k = match find_fn(fns, name) {
        Some(k) => k,
        None => {
            return Err(String::from_str("Function '").concat(name).concat("' not found"));
        },
    };
    if fns[k].params.len() != args.len() {
        let np = nat_string(fns[k].params.len());
        let na = nat_string(args.len());
        return Err(
            String::from_str("Function '").concat(name).concat("' expects ").concat(
                np.as_str(),
            ).concat(" arguments, got ").concat(na.as_str()),
        );
    }
    if fuel == 0 {
        return Err(String::from_str("Execution limit reached"));
    }
    let frame = bind_frame_x(&fns[k].params, &args);
    let ghost before_push = env.model();
    env.scopes.push(frame);
    proof {
        assert(env.model() =~= before_push.push(bind_frame(params_model(fns@[k as int].params@), args@)));
    }
    let br = exec_block_x(fns, env, out, &fns[k].body, fuel - 1);
    match br {
        Err(m) => Err(m),
        Ok(opt) => {
            let v = match opt {
                Some(v) => v,
                None => Value::Void,
            };
            env.pop_scope();
            Ok(v)
        },
    }
}

/// Run a body block; see [`exec_block_s`].
fn exec_block_x(
    fns: &Vec<FuncDef>,
    env: &mut Environment,
    out: &mut Vec<Value>,
    b: &MTree,
    fuel: u64,
) -> (r: Result<Option<Value>, String>)
    ensures
        ({
            let (st2, r2) = exec_block_s(
                funcs_model(fns@),
                St { env: old(env).model(), out: old(out)@ },
                b@,
                fuel as nat,
            );
            final(env).model() == st2.env && final(out)@ == st2.out && (match r {
                Ok(opt) => r2 == Ok::<Option<Value>, Seq<char>>(opt),
                Err(m) => r2 matches Err(mm) && m@ == mm,
            })
        }),
    decreases fuel, 3int, *b, 1int
{
    match b {
        MTree::BLOCK { stmts } => {
            proof {
                lemma_asts_of(stmts@);
                assert(asts_of(stmts@).subrange(0, stmts@.len() as int) =~= asts_of(stmts@));
            }
            exec_stmts_x(fns, env, out, stmts, 0, fuel)
        },
        _ => Err(String::from_str("Expected BLOCK node")),
    }
}

/// Run the statements `v[i..]` in order; see [`exec_stmts_s`].
fn exec_stmts_x(
    fns: &Vec<FuncDef>,
    env: &mut Environment,
    out: &mut Vec<Value>,
    v: &Vec<MTree>,
    i: usize,
    fuel: u64,
) -> (r: Result<Option<Value>, String>)
    requires
        i <= v@.len(),
    ensures
        ({
            let (st2, r2) = exec_stmts_s(
                funcs_model(fns@),
                St { env: old(env).model(), out: old(out)@ },
                asts_of(v@).subrange(i as int, v@.len() as int),
                fuel as nat,
            );
            final(env).model() == st2.env && final(out)@ == st2.out && (match r {
                Ok(opt) => r2 == Ok::<Option<Value>, Seq<char>>(opt),
                Err(m) => r2 matches Err(mm) && m@ == mm,
            })
        }),
    decreases fuel, 3int, v@, v@.len() - i
{
    proof {
        lemma_asts_of(v@);
    }
    let ghost suffix = asts_of(v@).subrange(i as int, v@.len() as int);
    if i == v.len() {
        proof {
            assert(suffix =~= Seq::<Ast>::empty());
        }
        return Ok(None);
    }
    proof {
        assert(suffix[0] == v@[i as int]@);
        assert(suffix.drop_first() =~= asts_of(v@).subrange(i + 1, v@.len() as int));
    }
    match exec_stmt_x(fns, env, out, &v[i], fuel)? {
        Some(ret) => Ok(Some(ret)),
        None => exec_stmts_x(fns, env, out, v, i + 1, fuel),
    }
}

/// Run one statement; see [`exec_stmt_s`].
#[verifier::rlimit(100)]
fn exec_stmt_x(
    fns: &Vec<FuncDef>,
    env: &mut Environment,
    out: &mut Vec<Value>,
    stmt: &MTree,
    fuel: u64,
) -> (r: Result<Option<Value>, String>)
    ensures
        ({
            let (st2, r2) = exec_stmt_s(
                funcs_model(fns@),
                St { env: old(env).model(), out: old(out)@ },
                stmt@,
                fuel as nat,
            );
            final(env).model() == st2.env && final(out)@ == st2.out && (match r {
                Ok(opt) => r2 == Ok::<Option<Value>, Seq<char>>(opt),
                Err(m) => r2 matches Err(mm) && m@ == mm,
            })
        }),
    decreases fuel, 3int, *stmt, 2int
{
    match stmt {
        MTree::LET_STMT { id, ty, expr } => {
            let value = match expr {
                Some(e) => eval_expr_x(fns, env, out, e, fuel)?,
                None => match ty {
                    Type::Int => Value::Int(0),
                    Type::Bool => Value::Bool(false),
                    Type::Unknown => Value::Int(0),
                },
            };
            env.declare(id.clone(), value);
            Ok(None)
        },
        MTree::ASSIGN { id, expr } => {
            let value = eval_expr_x(fns, env, out, expr, fuel)?;
            env.set(id.as_str(), value)?;
            Ok(None)
        },
        MTree::RTRN_STMT { expr } => {
            let value = eval_expr_x(fns, env, out, expr, fuel)?;
            Ok(Some(value))
        },
        MTree::IF_STMT { cond, then_block, else_block } => {
            let cond_val = eval_expr_x(fns, env, out, cond, fuel)?;
            if cond_val.as_bool()? {
                exec_block_x(fns, env, out, then_block, fuel)
            } else {
                match else_block {
                    Some(else_b) => exec_block_x(fns, env, out, else_b, fuel),
                    None => Ok(None),
                }
            }
        },
        MTree::WHILE_STMT { cond, body } => {
            let cond_val = eval_expr_x(fns, env, out, cond, fuel)?;
            if !cond_val.as_bool()? {
                return Ok(None);
            }
            match exec_block_x(fns, env, out, body, fuel)? {
                Some(ret) => Ok(Some(ret)),
                None => {
                    if fuel == 0 {
                        Err(String::from_str("Execution limit reached"))
                    } else {
                        exec_stmt_x(fns, env, out, stmt, fuel - 1)
                    }
                },
            }
        },
        MTree::PRINT_STMT { expr } => {
            let value = eval_expr_x(fns, env, out, expr, fuel)?;
            out.push(value);
            Ok(None)
        },
        MTree::BLOCK { stmts } => {
            proof {
                lemma_asts_of(stmts@);
                assert(asts_of(stmts@).subrange(0, stmts@.len() as int) =~= asts_of(stmts@));
            }
            // a nested block runs in a frame of its own, popped on exit
            env.push_scope();
            let r = exec_stmts_x(fns, env, out, stmts, 0, fuel)?;
            env.pop_scope();
            Ok(r)
        },
        _ => {
            let _ = eval_expr_x(fns, env, out, stmt, fuel)?;
            Ok(None)
        },
    }
}

/// Register the program's function declarations, in order.
fn register_funcs(mut funcs: Vec<MTree>, table: &mut Vec<FuncDef>)
    ensures
        funcs_model(final(table)@) == funcs_model(old(table)@) + regs_s(asts_of(funcs@)),
    decreases funcs@.len(),
{
    proof {
        lemma_asts_of(funcs@);
    }
    let ghost fsm = asts_of(funcs@);
    if funcs.len() == 0 {
        proof {
            assert(fsm =~= Seq::<Ast>::empty());
            assert(funcs_model(table@) + Seq::<FuncM>::empty() =~= funcs_model(table@));
        }
        return ;
    }
    proof {
        assert(fsm[0] == funcs@[0]@);
    }
    let f = funcs.remove(0);
    proof {
        lemma_asts_of(funcs@);
        assert(asts_of(funcs@) =~= fsm.drop_first());
    }
    let ghost t0 = funcs_model(table@);
    match f {
        MTree::FUNC_DECL { name, params, ret_type, body } => {
            let ghost nm = name@;
            let ghost pm = params_model(params@);
            let ghost bm = body@;
            table.push(FuncDef { name, params, ret_type, body: *body });
            proof {
                assert(funcs_model(table@) =~= t0.push(
                    FuncM { name: nm, params: pm, ret: ret_type, body: bm },
                ));
            }
        },
        _ => {},
    }
    register_funcs(funcs, table);
    proof {
        assert(funcs_model(table@) =~= funcs_model(old(table)@) + regs_s(fsm));
    }
}

/// The tree-walking evaluator: the registered functions, the environment's
/// scope stack, and the values printed so far.
pub struct Interpreter {
    pub env: Environment,
    pub functions: Vec<FuncDef>,
    pub output: Vec<Value>,
}

impl Interpreter {
    /// An interpreter with no registered functions, an environment of one
    /// empty frame, and no output.
    pub fn new() -> (r: Self)
        ensures
            r.env.model() == seq![Seq::<(Seq<char>, Value)>::empty()],
            r.functions@.len() == 0,
            r.output@.len() == 0,
    {
        Interpreter { env: Environment::new(), functions: Vec::new(), output: Vec::new() }
    }

    /// Register every top-level function declaration of the program, then
    /// call `main` with no arguments. Runtime errors surface as a
    /// descriptive message, never as a panic; printed values accumulate in
    /// the output.
    pub fn execute(&mut self, ast: MTree) -> (r: Result<(), String>)
        ensures
            ({
                let (fns, st, res) = run_s(
                    ast@,
                    old(self).env.model(),
                    old(self).output@,
                    funcs_model(old(self).functions@),
                    STEP_LIMIT as nat,
                );
                funcs_model(final(self).functions@) == fns && final(self).env.model() == st.env
                    && final(self).output@ == st.out && (match r {
                    Ok(_) => res matches Ok(_),
                    Err(m) => res matches Err(mm) && m@ == mm,
                })
            }),
    {
        let ghost fns0 = funcs_model(self.functions@);
        match ast {
            MTree::START { funcs } => {
                register_funcs(funcs, &mut self.functions);
            },
            _ => {
                proof {
                    assert(fns0 + Seq::<FuncM>::empty() =~= fns0);
                }
            },
        }
        let r = call_function(
            &self.functions,
            &mut self.env,
            &mut self.output,
            "main",
            Vec::new(),
            STEP_LIMIT,
        );
        match r {
            Ok(_) => Ok(()),
            Err(e) => Err(String::from_str("Runtime error: ").concat(e.as_str())),
        }
    }
}

} // verus!
