use vstd::prelude::*;
use crate::token::{Token, TokenKind, str_eq};
use crate::mtree::{MTree as ParseTree, Tree, trees_of, lemma_trees_of};

verus! {

/// A type of the language: `Unknown` is the "no constraint yet" value, not
/// an error, and never counts as a mismatch against anything.
#[derive(Debug, Clone, Copy, PartialEq, Eq, Structural)]
pub enum Type {
    Int,
    Bool,
    Unknown,
}

/// A flat name-to-type table: one per function during checking. Declaring a
/// name twice is an error; looking up an undeclared name is an error.
pub struct SymbolTable {
    pub vars: Vec<(String, Type)>,
}

/// The model of a symbol table: its bindings, oldest first.
pub open spec fn st_model(vars: Seq<(String, Type)>) -> Seq<(Seq<char>, Type)> {
    vars.map_values(|p: (String, Type)| (p.0@, p.1))
}

/// The binding of `name` in the table, if any.
pub open spec fn st_find(m: Seq<(Seq<char>, Type)>, name: Seq<char>) -> Option<Type>
    decreases m.len(),
{
    if m.len() == 0 {
        None
    } else if m.last().0 == name {
        Some(m.last().1)
    } else {
        st_find(m.drop_last(), name)
    }
}

/// The message for declaring an already-declared variable.
pub open spec fn msg_already_declared(name: Seq<char>) -> Seq<char> {
    "Variable '"@ + name + "' already declared"@
}

/// The message for using an undeclared variable.
pub open spec fn msg_not_declared(name: Seq<char>) -> Seq<char> {
    "Variable '"@ + name + "' not declared"@
}

impl SymbolTable {
    /// The model of this table.
    pub open spec fn model(self) -> Seq<(Seq<char>, Type)> {
        st_model(self.vars@)
    }

    /// An empty table.
    pub fn new() -> (r: Self)
        ensures
            r.model() == Seq::<(Seq<char>, Type)>::empty(),
    {
        let r = SymbolTable { vars: Vec::new() };
        proof {
            assert(r.model() =~= Seq::<(Seq<char>, Type)>::empty());
        }
        r
    }

    /// Bind `name` to `ty`; an already-declared name is an error and leaves
    /// the table unchanged.
    pub fn declare(&mut self, name: &str, ty: Type) -> (r: Result<(), String>)
        ensures
            match st_find(old(self).model(), name@) {
                Some(_) => r matches Err(m) && m@ == msg_already_declared(name@)
                    && final(self).model() == old(self).model(),
                None => r matches Ok(_) && final(self).model() == old(self).model().push(
                    (name@, ty),
                ),
            },
    {
        if self.contains(name) {
            Err(String::from_str("Variable '").concat(name).concat("' already declared"))
        } else {
            let ghost m0 = self.model();
            self.vars.push((String::from_str(name), ty));
            proof {
                assert(self.model() =~= m0.push((name@, ty)));
            }
            Ok(())
        }
    }

    /// The declared type of `name`; an undeclared name is an error.
    pub fn check(&self, name: &str) -> (r: Result<Type, String>)
        ensures
            match st_find(self.model(), name@) {
                Some(t) => r matches Ok(t2) && t2 == t,
                None => r matches Err(m) && m@ == msg_not_declared(name@),
            },
    {
        let ghost m = self.model();
        let mut i: usize = self.vars.len();
        proof {
            assert(m.subrange(0, m.len() as int) =~= m);
        }
        while i > 0
            invariant
                i <= self.vars@.len(),
                m == self.model(),
                st_find(m, name@) == st_find(m.subrange(0, i as int), name@),
            decreases i,
        {
            i = i - 1;
            let ghost mi = m.subrange(0, i + 1);
            proof {
                assert(mi.last() == m[i as int]);
                assert(mi.drop_last() =~= m.subrange(0, i as int));
            }
            if str_eq(self.vars[i].0.as_str(), name) {
                return Ok(self.vars[i].1);
            }
        }
        proof {
            assert(m.subrange(0, 0) =~= Seq::<(Seq<char>, Type)>::empty());
        }
        Err(String::from_str("Variable '").concat(name).concat("' not declared"))
    }

    /// Whether `name` is declared.
    fn contains(&self, name: &str) -> (r: bool)
        ensures
            r == (st_find(self.model(), name@) matches Some(_)),
    {
        let ghost m = self.model();
        let mut i: usize = self.vars.len();
        proof {
            assert(m.subrange(0, m.len() as int) =~= m);
        }
        while i > 0
            invariant
                i <= self.vars@.len(),
                m == self.model(),
                st_find(m, name@) == st_find(m.subrange(0, i as int), name@),
            decreases i,
        {
            i = i - 1;
            let ghost mi = m.subrange(0, i + 1);
            proof {
                assert(mi.last() == m[i as int]);
                assert(mi.drop_last() =~= m.subrange(0, i as int));
            }
            if str_eq(self.vars[i].0.as_str(), name) {
                return true;
            }
        }
        proof {
            assert(m.subrange(0, 0) =~= Seq::<(Seq<char>, Type)>::empty());
        }
        false
    }
}

/// The semantic tree: one shaped variant per construct of the language.
/// Lowering builds it once; constant folding rewrites expression subtrees in
/// place; the checker and the interpreter read it.
#[derive(Debug)]
pub enum MTree {
    START { funcs: Vec<MTree> },
    FUNC_DECL { name: String, params: Vec<(String, Type)>, ret_type: Type, body: Box<MTree> },
    BLOCK { stmts: Vec<MTree> },
    LET_STMT { id: String, ty: Type, expr: Option<Box<MTree>> },
    ASSIGN { id: String, expr: Box<MTree> },
    RTRN_STMT { expr: Box<MTree> },
    WHILE_STMT { cond: Box<MTree>, body: Box<MTree> },
    IF_STMT { cond: Box<MTree>, then_block: Box<MTree>, else_block: Option<Box<MTree>> },
    PRINT_STMT { expr: Box<MTree> },
    EXPR { left: Box<MTree>, op: String, right: Box<MTree> },
    CALL { name: String, args: Vec<MTree> },
    ID { name: String },
    LIT_INT { value: i32 },
    LIT_BOOL { value: bool },
}

/// The mathematical model of a semantic tree.
pub ghost enum Ast {
    Start { funcs: Seq<Ast> },
    FuncDecl { name: Seq<char>, params: Seq<(Seq<char>, Type)>, ret_type: Type, body: Box<Ast> },
    Block { stmts: Seq<Ast> },
    LetStmt { id: Seq<char>, ty: Type, expr: Option<Box<Ast>> },
    Assign { id: Seq<char>, expr: Box<Ast> },
    RtrnStmt { expr: Box<Ast> },
    WhileStmt { cond: Box<Ast>, body: Box<Ast> },
    IfStmt { cond: Box<Ast>, then_block: Box<Ast>, else_block: Option<Box<Ast>> },
    PrintStmt { expr: Box<Ast> },
    Expr { left: Box<Ast>, op: Seq<char>, right: Box<Ast> },
    Call { name: Seq<char>, args: Seq<Ast> },
    Id { name: Seq<char> },
    LitInt { value: i32 },
    LitBool { value: bool },
}

/// The models of a sequence of semantic trees, in order.
pub open spec fn asts_of(s: Seq<MTree>) -> Seq<Ast>
    decreases s,
{
    if s.len() == 0 {
        Seq::empty()
    } else {
        asts_of(s.drop_last()).push(s.last().model())
    }
}

/// The models of a parameter list.
pub open spec fn params_model(s: Seq<(String, Type)>) -> Seq<(Seq<char>, Type)> {
    s.map_values(|p: (String, Type)| (p.0@, p.1))
}

impl MTree {
    /// The model of this tree.
    pub open spec fn model(self) -> Ast
        decreases self,
    {
        match self {
            MTree::START { funcs } => Ast::Start { funcs: asts_of(funcs@) },
            MTree::FUNC_DECL { name, params, ret_type, body } => Ast::FuncDecl {
                name: name@,
                params: params_model(params@),
                ret_type,
                body: Box::new(body.model()),
            },
            MTree::BLOCK { stmts } => Ast::Block { stmts: asts_of(stmts@) },
            MTree::LET_STMT { id, ty, expr } => Ast::LetStmt {
                id: id@,
                ty,
                expr: match expr {
                    Some(e) => Some(Box::new(e.model())),
                    None => None,
                },
            },
            MTree::ASSIGN { id, expr } => Ast::Assign { id: id@, expr: Box::new(expr.model()) },
            MTree::RTRN_STMT { expr } => Ast::RtrnStmt { expr: Box::new(expr.model()) },
            MTree::WHILE_STMT { cond, body } => Ast::WhileStmt {
                cond: Box::new(cond.model()),
                body: Box::new(body.model()),
            },
            MTree::IF_STMT { cond, then_block, else_block } => Ast::IfStmt {
                cond: Box::new(cond.model()),
                then_block: Box::new(then_block.model()),
                else_block: match else_block {
                    Some(e) => Some(Box::new(e.model())),
                    None => None,
                },
            },
            MTree::PRINT_STMT { expr } => Ast::PrintStmt { expr: Box::new(expr.model()) },
            MTree::EXPR { left, op, right } => Ast::Expr {
                left: Box::new(left.model()),
                op: op@,
                right: Box::new(right.model()),
            },
            MTree::CALL { name, args } => Ast::Call { name: name@, args: asts_of(args@) },
            MTree::ID { name } => Ast::Id { name: name@ },
            MTree::LIT_INT { value } => Ast::LitInt { value },
            MTree::LIT_BOOL { value } => Ast::LitBool { value },
        }
    }
}

impl View for MTree {
    type V = Ast;

    open spec fn view(&self) -> Ast {
        self.model()
    }
}

/// `asts_of` maps a sequence of trees to their models pointwise.
pub broadcast proof fn lemma_asts_of(s: Seq<MTree>)
    ensures
        (#[trigger] asts_of(s)).len() == s.len(),
        forall|i: int| 0 <= i < s.len() ==> asts_of(s)[i] == s[i]@,
    decreases s,
{
    if s.len() > 0 {
        lemma_asts_of(s.drop_last());
        assert forall|i: int| 0 <= i < s.len() implies asts_of(s)[i] == s[i]@ by {
            if i < s.len() - 1 {
                assert(asts_of(s)[i] == asts_of(s.drop_last())[i]);
                assert(s.drop_last()[i] == s[i]);
            } else {
                assert(asts_of(s)[i] == s.last()@);
            }
        }
    }
}

impl MTree {
    /// An integer literal node.
    pub fn lit_int(i: i32) -> (r: Self)
        ensures
            r@ == (Ast::LitInt { value: i }),
    {
        MTree::LIT_INT { value: i }
    }

    /// A boolean literal node.
    pub fn lit_bool(b: bool) -> (r: Self)
        ensures
            r@ == (Ast::LitBool { value: b }),
    {
        MTree::LIT_BOOL { value: b }
    }

    /// A variable reference node.
    pub fn id(name: String) -> (r: Self)
        ensures
            r@ == (Ast::Id { name: name@ }),
    {
        MTree::ID { name }
    }
}

/// The type a type token denotes; types the language cannot check stay
/// unconstrained.
pub open spec fn type_of_kind(k: TokenKind) -> Type {
    if k == TokenKind::TYPE_INT32 {
        Type::Int
    } else if k == TokenKind::TYPE_BOOL {
        Type::Bool
    } else {
        Type::Unknown
    }
}

/// Whether the kind is a binary operator the lowering handles.
pub open spec fn is_op_kind(k: TokenKind) -> bool {
    k == TokenKind::ADD || k == TokenKind::SUB || k == TokenKind::MUL || k == TokenKind::DIV
        || k == TokenKind::EQ || k == TokenKind::NEQ || k == TokenKind::LT || k == TokenKind::GT
        || k == TokenKind::NLT || k == TokenKind::NGT || k == TokenKind::AND || k == TokenKind::OR
}

/// The operator symbol of a binary operator kind.
pub open spec fn op_sym(k: TokenKind) -> Seq<char> {
    if k == TokenKind::ADD {
        "+"@
    } else if k == TokenKind::SUB {
        "-"@
    } else if k == TokenKind::MUL {
        "*"@
    } else if k == TokenKind::DIV {
        "/"@
    } else if k == TokenKind::EQ {
        "=="@
    } else if k == TokenKind::NEQ {
        "!="@
    } else if k == TokenKind::LT {
        "<"@
    } else if k == TokenKind::GT {
        ">"@
    } else if k == TokenKind::NLT {
        ">="@
    } else if k == TokenKind::NGT {
        "<="@
    } else if k == TokenKind::AND {
        "&&"@
    } else {
        "||"@
    }
}

/// Lowering a sequence of syntax trees: the first failure wins.
pub open spec fn lower_list_spec(ts: Seq<Tree>) -> Result<Seq<Ast>, Seq<char>>
    decreases ts,
{
    if ts.len() == 0 {
        Ok(Seq::empty())
    } else {
        match lower_spec(ts[0]) {
            Ok(h) => match lower_list_spec(ts.drop_first()) {
                Ok(rest) => Ok(seq![h] + rest),
                Err(e) => Err(e),
            },
            Err(e) => Err(e),
        }
    }
}

/// Lowering the parameter nodes of a parameter list.
pub open spec fn lower_params_spec(ps: Seq<Tree>) -> Result<Seq<(Seq<char>, Type)>, Seq<char>>
    decreases ps,
{
    if ps.len() == 0 {
        Ok(Seq::empty())
    } else {
        let p = ps[0];
        if p.children.len() < 1 {
            Err("Param missing id"@)
        } else if p.children.len() < 2 {
            Err("Param missing type"@)
        } else if p.children[0].tok.kind != TokenKind::ID {
            Err("Expected ID in param"@)
        } else {
            match lower_params_spec(ps.drop_first()) {
                Ok(rest) => Ok(
                    seq![(p.children[0].tok.name, type_of_kind(p.children[1].tok.kind))] + rest,
                ),
                Err(e) => Err(e),
            }
        }
    }
}

/// Lowering: the purely structural conversion of the generic syntax tree
/// into the shaped semantic tree, dispatched on the root label. Structurally
/// malformed input fails with a message naming the malformed construct.
pub open spec fn lower_spec(t: Tree) -> Result<Ast, Seq<char>>
    decreases t,
{
    let k = t.tok.kind;
    if k == TokenKind::START {
        match lower_list_spec(t.children) {
            Ok(fs) => Ok(Ast::Start { funcs: fs }),
            Err(e) => Err(e),
        }
    } else if k == TokenKind::FUNC_DECL {
        if t.children.len() < 1 {
            Err("Missing function name"@)
        } else if t.children[0].tok.kind != TokenKind::ID {
            Err("Expected ID in FUNC_DECL"@)
        } else if t.children.len() < 2 {
            Err("Missing param list"@)
        } else {
            match lower_params_spec(t.children[1].children) {
                Err(e) => Err(e),
                Ok(params) => {
                    if t.children.len() < 3 {
                        Err("Missing function block"@)
                    } else {
                        let third = t.children[2];
                        if third.tok.kind == TokenKind::TYPE_INT32 || third.tok.kind
                            == TokenKind::TYPE_BOOL {
                            if t.children.len() < 4 {
                                Err("Missing function block"@)
                            } else {
                                match lower_spec(t.children[3]) {
                                    Ok(b) => Ok(Ast::FuncDecl {
                                        name: t.children[0].tok.name,
                                        params,
                                        ret_type: type_of_kind(third.tok.kind),
                                        body: Box::new(b),
                                    }),
                                    Err(e) => Err(e),
                                }
                            }
                        } else {
                            match lower_spec(third) {
                                Ok(b) => Ok(Ast::FuncDecl {
                                    name: t.children[0].tok.name,
                                    params,
                                    ret_type: Type::Unknown,
                                    body: Box::new(b),
                                }),
                                Err(e) => Err(e),
                            }
                        }
                    }
                },
            }
        }
    } else if k == TokenKind::BLOCK {
        match lower_list_spec(t.children) {
            Ok(ss) => Ok(Ast::Block { stmts: ss }),
            Err(e) => Err(e),
        }
    } else if k == TokenKind::LET_STMT {
        if t.children.len() < 1 {
            Err("let missing id"@)
        } else if t.children[0].tok.kind != TokenKind::ID {
            Err("Expected id in let"@)
        } else {
            let id = t.children[0].tok.name;
            if t.children.len() >= 2 {
                let second = t.children[1];
                if crate::token::is_type_kind(second.tok.kind) {
                    if t.children.len() >= 3 {
                        match lower_spec(t.children[2]) {
                            Ok(e) => Ok(Ast::LetStmt {
                                id,
                                ty: type_of_kind(second.tok.kind),
                                expr: Some(Box::new(e)),
                            }),
                            Err(e) => Err(e),
                        }
                    } else {
                        Ok(Ast::LetStmt { id, ty: type_of_kind(second.tok.kind), expr: None })
                    }
                } else {
                    match lower_spec(second) {
                        Ok(e) => Ok(Ast::LetStmt { id, ty: Type::Unknown, expr: Some(Box::new(e)) }),
                        Err(e) => Err(e),
                    }
                }
            } else {
                Ok(Ast::LetStmt { id, ty: Type::Unknown, expr: None })
            }
        }
    } else if k == TokenKind::ASSIGN {
        if t.children.len() != 2 {
            Err("Assign must have two children"@)
        } else if t.children[0].tok.kind != TokenKind::ID {
            Err("Left side of assign must be ID"@)
        } else {
            match lower_spec(t.children[1]) {
                Ok(e) => Ok(Ast::Assign { id: t.children[0].tok.name, expr: Box::new(e) }),
                Err(e) => Err(e),
            }
        }
    } else if k == TokenKind::RTRN_STMT {
        if t.children.len() < 1 {
            Err("return missing expr"@)
        } else {
            match lower_spec(t.children[0]) {
                Ok(e) => Ok(Ast::RtrnStmt { expr: Box::new(e) }),
                Err(e) => Err(e),
            }
        }
    } else if k == TokenKind::WHILE_STMT {
        if t.children.len() < 1 {
            Err("while missing condition"@)
        } else if t.children.len() < 2 {
            Err("while missing body"@)
        } else {
            match lower_spec(t.children[0]) {
                Ok(c) => match lower_spec(t.children[1]) {
                    Ok(b) => Ok(Ast::WhileStmt { cond: Box::new(c), body: Box::new(b) }),
                    Err(e) => Err(e),
                },
                Err(e) => Err(e),
            }
        }
    } else if k == TokenKind::IF_STMT {
        if t.children.len() < 1 {
            Err("if missing condition"@)
        } else if t.children.len() < 2 {
            Err("if missing then block"@)
        } else {
            match lower_spec(t.children[0]) {
                Ok(c) => match lower_spec(t.children[1]) {
                    Ok(tb) => {
                        if t.children.len() > 2 {
                            match lower_spec(t.children[2]) {
                                Ok(eb) => Ok(Ast::IfStmt {
                                    cond: Box::new(c),
                                    then_block: Box::new(tb),
                                    else_block: Some(Box::new(eb)),
                                }),
                                Err(e) => Err(e),
                            }
                        } else {
                            Ok(Ast::IfStmt {
                                cond: Box::new(c),
                                then_block: Box::new(tb),
                                else_block: None,
                            })
                        }
                    },
                    Err(e) => Err(e),
                },
                Err(e) => Err(e),
            }
        }
    } else if k == TokenKind::PRINT {
        if t.children.len() < 1 {
            Err("print missing expr"@)
        } else {
            match lower_spec(t.children[0]) {
                Ok(e) => Ok(Ast::PrintStmt { expr: Box::new(e) }),
                Err(e) => Err(e),
            }
        }
    } else if k == TokenKind::NOT {
        if t.children.len() != 1 {
            Err("unary NOT must have one child"@)
        } else {
            match lower_spec(t.children[0]) {
                Ok(e) => Ok(Ast::Expr {
                    left: Box::new(Ast::LitBool { value: false }),
                    op: "!"@,
                    right: Box::new(e),
                }),
                Err(e) => Err(e),
            }
        }
    } else if is_op_kind(k) {
        if t.children.len() == 1 {
            if k == TokenKind::SUB {
                match lower_spec(t.children[0]) {
                    Ok(e) => Ok(Ast::Expr {
                        left: Box::new(Ast::LitInt { value: 0 }),
                        op: "unary-"@,
                        right: Box::new(e),
                    }),
                    Err(e) => Err(e),
                }
            } else {
                Err("Only SUB can be unary in this position"@)
            }
        } else if t.children.len() == 2 {
            match lower_spec(t.children[0]) {
                Ok(l) => match lower_spec(t.children[1]) {
                    Ok(r) => Ok(Ast::Expr { left: Box::new(l), op: op_sym(k), right: Box::new(r) }),
                    Err(e) => Err(e),
                },
                Err(e) => Err(e),
            }
        } else {
            Err("operator must have one or two children"@)
        }
    } else if k == TokenKind::PARENS_L {
        if t.children.len() >= 1 {
            lower_spec(t.children[0])
        } else {
            Err("empty parens"@)
        }
    } else if k == TokenKind::ID {
        if t.children.len() > 0 {
            match lower_list_spec(t.children) {
                Ok(args) => Ok(Ast::Call { name: t.tok.name, args }),
                Err(e) => Err(e),
            }
        } else {
            Ok(Ast::Id { name: t.tok.name })
        }
    } else if k == TokenKind::LIT_INT32 {
        Ok(Ast::LitInt { value: t.tok.ival })
    } else if k == TokenKind::LIT_BOOL {
        Ok(Ast::LitBool { value: t.tok.bval })
    } else {
        Err("Unhandled token in converter"@)
    }
}

/// Lower the syntax trees `v[from..]` in order; the first failure wins.
fn lower_list(v: &Vec<ParseTree>, from: usize) -> (r: Result<Vec<MTree>, String>)
    requires
        from <= v@.len(),
    ensures
        ({
            let s = lower_list_spec(trees_of(v@).subrange(from as int, v@.len() as int));
            match r {
                Ok(ts) => s matches Ok(l) && asts_of(ts@) == l,
                Err(e) => s matches Err(m) && e@ == m,
            }
        }),
    decreases v@, v@.len() - from, 0int
{
    proof {
        lemma_trees_of(v@);
    }
    let ghost suffix = trees_of(v@).subrange(from as int, v@.len() as int);
    if from == v.len() {
        proof {
            assert(suffix =~= Seq::<Tree>::empty());
            assert(asts_of(Seq::<MTree>::empty()) =~= Seq::<Ast>::empty());
        }
        return Ok(Vec::new());
    }
    proof {
        assert(suffix[0] == v@[from as int]@);
        assert(suffix.drop_first() =~= trees_of(v@).subrange(from + 1, v@.len() as int));
    }
    let h = from_parse_tree(&v[from])?;
    let ghost hm = h@;
    let mut rest = lower_list(v, from + 1)?;
    let ghost restm = rest@;
    rest.insert(0, h);
    proof {
        lemma_asts_of(rest@);
        lemma_asts_of(restm);
        assert(asts_of(rest@) =~= seq![hm] + asts_of(restm));
    }
    Ok(rest)
}

/// Lower the parameter nodes `v[from..]` in order.
fn lower_params(v: &Vec<ParseTree>, from: usize) -> (r: Result<Vec<(String, Type)>, String>)
    requires
        from <= v@.len(),
    ensures
        ({
            let s = lower_params_spec(trees_of(v@).subrange(from as int, v@.len() as int));
            match r {
                Ok(ps) => s matches Ok(l) && params_model(ps@) == l,
                Err(e) => s matches Err(m) && e@ == m,
            }
        }),
    decreases v@, v@.len() - from, 0int
{
    proof {
        lemma_trees_of(v@);
    }
    let ghost suffix = trees_of(v@).subrange(from as int, v@.len() as int);
    if from == v.len() {
        proof {
            assert(suffix =~= Seq::<Tree>::empty());
            assert(params_model(Seq::<(String, Type)>::empty()) =~= Seq::<(Seq<char>, Type)>::empty());
        }
        return Ok(Vec::new());
    }
    proof {
        assert(suffix[0] == v@[from as int]@);
        assert(suffix.drop_first() =~= trees_of(v@).subrange(from + 1, v@.len() as int));
        lemma_trees_of(v@[from as int].children@);
    }
    let p = &v[from];
    if p.children.len() < 1 {
        return Err(String::from_str("Param missing id"));
    }
    if p.children.len() < 2 {
        return Err(String::from_str("Param missing type"));
    }
    let pname = match &p.children[0].token {
        Token::ID { name } => name.clone(),
        _ => {
            return Err(String::from_str("Expected ID in param"));
        },
    };
    let ptype = type_of_token(&p.children[1].token);
    let mut rest = lower_params(v, from + 1)?;
    let ghost restm = rest@;
    let ghost pnm = pname@;
    rest.insert(0, (pname, ptype));
    proof {
        assert(params_model(rest@) =~= seq![(pnm, ptype)] + params_model(restm));
    }
    Ok(rest)
}

/// The type a type token denotes; see [`type_of_kind`].
fn type_of_token(t: &Token) -> (r: Type)
    ensures
        r == type_of_kind(t@.kind),
{
    match t.kind() {
        TokenKind::TYPE_INT32 => Type::Int,
        TokenKind::TYPE_BOOL => Type::Bool,
        _ => Type::Unknown,
    }
}

/// Convert the generic syntax tree into the shaped semantic tree; see
/// [`lower_spec`]. Structurally malformed input fails with a message naming
/// the malformed construct.
#[verifier::rlimit(100)]
pub fn from_parse_tree(pt: &ParseTree) -> (r: Result<MTree, String>)
    ensures
        match r {
            Ok(t) => lower_spec(pt@) matches Ok(a) && t@ == a,
            Err(e) => lower_spec(pt@) matches Err(m) && e@ == m,
        },
    decreases *pt, 0int, 0int
{
    proof {
        lemma_trees_of(pt.children@);
        assert(trees_of(pt.children@).subrange(0, pt.children@.len() as int) =~= trees_of(
            pt.children@,
        ));
    }
    match pt.token.kind() {
        TokenKind::START => {
            let funcs = lower_list(&pt.children, 0)?;
            Ok(MTree::START { funcs })
        },
        TokenKind::FUNC_DECL => {
            if pt.children.len() < 1 {
                return Err(String::from_str("Missing function name"));
            }
            let name = match &pt.children[0].token {
                Token::ID { name } => name.clone(),
                _ => {
                    return Err(String::from_str("Expected ID in FUNC_DECL"));
                },
            };
            if pt.children.len() < 2 {
                return Err(String::from_str("Missing param list"));
            }
            proof {
                lemma_trees_of(pt.children[1].children@);
                assert(trees_of(pt.children[1].children@).subrange(
                    0,
                    pt.children[1].children@.len() as int,
                ) =~= trees_of(pt.children[1].children@));
            }
            let params = lower_params(&pt.children[1].children, 0)?;
            if pt.children.len() < 3 {
                return Err(String::from_str("Missing function block"));
            }
            let third_kind = pt.children[2].token.kind();
            if matches!(third_kind, TokenKind::TYPE_INT32 | TokenKind::TYPE_BOOL) {
                if pt.children.len() < 4 {
                    return Err(String::from_str("Missing function block"));
                }
                let ret_type = type_of_token(&pt.children[2].token);
                let body = from_parse_tree(&pt.children[3])?;
                Ok(MTree::FUNC_DECL { name, params, ret_type, body: Box::new(body) })
            } else {
                let body = from_parse_tree(&pt.children[2])?;
                Ok(MTree::FUNC_DECL { name, params, ret_type: Type::Unknown, body: Box::new(body) })
            }
        },
        TokenKind::BLOCK => {
            let stmts = lower_list(&pt.children, 0)?;
            Ok(MTree::BLOCK { stmts })
        },
        TokenKind::LET_STMT => {
            if pt.children.len() < 1 {
                return Err(String::from_str("let missing id"));
            }
            let id = match &pt.children[0].token {
                Token::ID { name } => name.clone(),
                _ => {
                    return Err(String::from_str("Expected id in let"));
                },
            };
            if pt.children.len() >= 2 {
                if pt.children[1].token.is_type() {
                    let ty = type_of_token(&pt.children[1].token);
                    if pt.children.len() >= 3 {
                        let e = from_parse_tree(&pt.children[2])?;
                        Ok(MTree::LET_STMT { id, ty, expr: Some(Box::new(e)) })
                    } else {
                        Ok(MTree::LET_STMT { id, ty, expr: None })
                    }
                } else {
                    let e = from_parse_tree(&pt.children[1])?;
                    Ok(MTree::LET_STMT { id, ty: Type::Unknown, expr: Some(Box::new(e)) })
                }
            } else {
                Ok(MTree::LET_STMT { id, ty: Type::Unknown, expr: None })
            }
        },
        TokenKind::ASSIGN => {
            if pt.children.len() != 2 {
                return Err(String::from_str("Assign must have two children"));
            }
            let id = match &pt.children[0].token {
                Token::ID { name } => name.clone(),
                _ => {
                    return Err(String::from_str("Left side of assign must be ID"));
                },
            };
            let e = from_parse_tree(&pt.children[1])?;
            Ok(MTree::ASSIGN { id, expr: Box::new(e) })
        },
        TokenKind::RTRN_STMT => {
            if pt.children.len() < 1 {
                return Err(String::from_str("return missing expr"));
            }
            let e = from_parse_tree(&pt.children[0])?;
            Ok(MTree::RTRN_STMT { expr: Box::new(e) })
        },
        TokenKind::WHILE_STMT => {
            if pt.children.len() < 1 {
                return Err(String::from_str("while missing condition"));
            }
            if pt.children.len() < 2 {
                return Err(String::from_str("while missing body"));
            }
            let c = from_parse_tree(&pt.children[0])?;
            let b = from_parse_tree(&pt.children[1])?;
            Ok(MTree::WHILE_STMT { cond: Box::new(c), body: Box::new(b) })
        },
        TokenKind::IF_STMT => {
            if pt.children.len() < 1 {
                return Err(String::from_str("if missing condition"));
            }
            if pt.children.len() < 2 {
                return Err(String::from_str("if missing then block"));
            }
            let c = from_parse_tree(&pt.children[0])?;
            let tb = from_parse_tree(&pt.children[1])?;
            if pt.children.len() > 2 {
                let eb = from_parse_tree(&pt.children[2])?;
                Ok(MTree::IF_STMT {
                    cond: Box::new(c),
                    then_block: Box::new(tb),
                    else_block: Some(Box::new(eb)),
                })
            } else {
                Ok(MTree::IF_STMT { cond: Box::new(c), then_block: Box::new(tb), else_block: None })
            }
        },
        TokenKind::PRINT => {
            if pt.children.len() < 1 {
                return Err(String::from_str("print missing expr"));
            }
            let e = from_parse_tree(&pt.children[0])?;
            Ok(MTree::PRINT_STMT { expr: Box::new(e) })
        },
        TokenKind::NOT => {
            if pt.children.len() != 1 {
                return Err(String::from_str("unary NOT must have one child"));
            }
            let e = from_parse_tree(&pt.children[0])?;
            let ghost em = e@;
            let node = MTree::EXPR {
                left: Box::new(MTree::LIT_BOOL { value: false }),
                op: String::from_str("!"),
                right: Box::new(e),
            };
            proof {
                assert((MTree::LIT_BOOL { value: false })@ == (Ast::LitBool { value: false }));
                assert(node@ == Ast::Expr {
                    left: Box::new(Ast::LitBool { value: false }),
                    op: "!"@,
                    right: Box::new(em),
                });
                assert(lower_spec(pt@) == Ok::<Ast, Seq<char>>(Ast::Expr {
                    left: Box::new(Ast::LitBool { value: false }),
                    op: "!"@,
                    right: Box::new(em),
                }));
            }
            Ok(node)
        },
        TokenKind::ADD | TokenKind::SUB | TokenKind::MUL | TokenKind::DIV | TokenKind::EQ
            | TokenKind::NEQ | TokenKind::LT | TokenKind::GT | TokenKind::NLT | TokenKind::NGT
            | TokenKind::AND | TokenKind::OR => {
            if pt.children.len() == 1 {
                if matches!(pt.token.kind(), TokenKind::SUB) {
                    let e = from_parse_tree(&pt.children[0])?;
                    let ghost em = e@;
                    let node = MTree::EXPR {
                        left: Box::new(MTree::LIT_INT { value: 0 }),
                        op: String::from_str("unary-"),
                        right: Box::new(e),
                    };
                    proof {
                        assert((MTree::LIT_INT { value: 0 })@ == (Ast::LitInt { value: 0 }));
                        assert(node@ == Ast::Expr {
                            left: Box::new(Ast::LitInt { value: 0 }),
                            op: "unary-"@,
                            right: Box::new(em),
                        });
                        assert(lower_spec(pt@) == Ok::<Ast, Seq<char>>(Ast::Expr {
                            left: Box::new(Ast::LitInt { value: 0 }),
                            op: "unary-"@,
                            right: Box::new(em),
                        }));
                    }
                    Ok(node)
                } else {
                    Err(String::from_str("Only SUB can be unary in this position"))
                }
            } else if pt.children.len() == 2 {
                let l = from_parse_tree(&pt.children[0])?;
                let r = from_parse_tree(&pt.children[1])?;
                let ghost lm = l@;
                let ghost rm = r@;
                proof {
                    assert(lower_spec(pt@) == Ok::<Ast, Seq<char>>(Ast::Expr {
                        left: Box::new(lm),
                        op: op_sym(pt@.tok.kind),
                        right: Box::new(rm),
                    }));
                }
                let op = match pt.token.kind() {
                    TokenKind::ADD => String::from_str("+"),
                    TokenKind::SUB => String::from_str("-"),
                    TokenKind::MUL => String::from_str("*"),
                    TokenKind::DIV => String::from_str("/"),
                    TokenKind::EQ => String::from_str("=="),
                    TokenKind::NEQ => String::from_str("!="),
                    TokenKind::LT => String::from_str("<"),
                    TokenKind::GT => String::from_str(">"),
                    TokenKind::NLT => String::from_str(">="),
                    TokenKind::NGT => String::from_str("<="),
                    TokenKind::AND => String::from_str("&&"),
                    _ => String::from_str("||"),
                };
                let ghost opm = op@;
                let node = MTree::EXPR { left: Box::new(l), op, right: Box::new(r) };
                proof {
                    assert(opm == op_sym(pt@.tok.kind));
                    assert(node@ == Ast::Expr {
                        left: Box::new(lm),
                        op: opm,
                        right: Box::new(rm),
                    });
                }
                Ok(node)
            } else {
                Err(String::from_str("operator must have one or two children"))
            }
        },
        TokenKind::PARENS_L => {
            if pt.children.len() >= 1 {
                from_parse_tree(&pt.children[0])
            } else {
                Err(String::from_str("empty parens"))
            }
        },
        TokenKind::ID => {
            let name = match &pt.token {
                Token::ID { name } => name.clone(),
                _ => {
                    return Err(String::from_str("Unhandled token in converter"));
                },
            };
            if pt.children.len() > 0 {
                let args = lower_list(&pt.children, 0)?;
                Ok(MTree::CALL { name, args })
            } else {
                Ok(MTree::ID { name })
            }
        },
        TokenKind::LIT_INT32 => {
            let value = match &pt.token {
                Token::LIT_INT32 { value } => *value,
                _ => {
                    return Err(String::from_str("Unhandled token in converter"));
                },
            };
            Ok(MTree::LIT_INT { value })
        },
        TokenKind::LIT_BOOL => {
            let value = match &pt.token {
                Token::LIT_BOOL { value } => *value,
                _ => {
                    return Err(String::from_str("Unhandled token in converter"));
                },
            };
            Ok(MTree::LIT_BOOL { value })
        },
        _ => Err(String::from_str("Unhandled token in converter")),
    }
}

/// Truncating integer division, as machine division of `i32` values rounds:
/// the magnitudes divide and the quotient takes the sign of the operands'
/// product, so the result rounds toward zero.
pub open spec fn div_trunc(x: int, y: int) -> int {
    let q = vstd::math::abs(x) / vstd::math::abs(y);
    if (x < 0) == (y < 0) {
        q as int
    } else {
        -(q as int)
    }
}

/// The result of a binary operator on two integer literals, where folding
/// applies: the four arithmetic operators, with division by zero and any
/// result outside `i32` left for run time.
pub open spec fn fold_arith(op: Seq<char>, x: i32, y: i32) -> Option<i32> {
    if op == "+"@ {
        if i32::MIN <= x + y <= i32::MAX {
            Some((x + y) as i32)
        } else {
            None
        }
    } else if op == "-"@ {
        if i32::MIN <= x - y <= i32::MAX {
            Some((x - y) as i32)
        } else {
            None
        }
    } else if op == "*"@ {
        if i32::MIN <= x * y <= i32::MAX {
            Some((x * y) as i32)
        } else {
            None
        }
    } else if op == "/"@ {
        if y == 0 || (x == i32::MIN && y == -1) {
            None
        } else {
            Some(div_trunc(x as int, y as int) as i32)
        }
    } else {
        None
    }
}

/// Constant folding: a post-order rewrite over binary expression nodes only.
/// An expression whose folded operands are both integer literals collapses
/// to the literal of the operator's result where one exists; every other
/// node is left untouched.
pub open spec fn fold_spec(a: Ast) -> Ast
    decreases a,
{
    match a {
        Ast::Expr { left, op, right } => {
            let l = fold_spec(*left);
            let r = fold_spec(*right);
            match (l, r) {
                (Ast::LitInt { value: x }, Ast::LitInt { value: y }) => match fold_arith(op, x, y) {
                    Some(v) => Ast::LitInt { value: v },
                    None => Ast::Expr { left: Box::new(l), op, right: Box::new(r) },
                },
                _ => Ast::Expr { left: Box::new(l), op, right: Box::new(r) },
            }
        },
        _ => a,
    }
}

/// Folding is idempotent: folding an already-folded tree is a no-op.
pub proof fn lemma_fold_idempotent(a: Ast)
    ensures
        fold_spec(fold_spec(a)) == fold_spec(a),
    decreases a,
{
    match a {
        Ast::Expr { left, op, right } => {
            lemma_fold_idempotent(*left);
            lemma_fold_idempotent(*right);
        },
        _ => {},
    }
}

/// Fold integer-literal arithmetic in a subtree, owned; see [`fold_spec`].
fn fold_owned(t: MTree) -> (r: MTree)
    ensures
        r@ == fold_spec(t@),
    decreases t,
{
    match t {
        MTree::EXPR { left, op, right } => {
            let l = fold_owned(*left);
            let r = fold_owned(*right);
            let folded: Option<i32> = match (&l, &r) {
                (MTree::LIT_INT { value: x }, MTree::LIT_INT { value: y }) => {
                    let x = *x;
                    let y = *y;
                    if str_eq(op.as_str(), "+") {
                        let s = x as i64 + y as i64;
                        if i32::MIN as i64 <= s && s <= i32::MAX as i64 {
                            Some(s as i32)
                        } else {
                            None
                        }
                    } else if str_eq(op.as_str(), "-") {
                        let s = x as i64 - y as i64;
                        if i32::MIN as i64 <= s && s <= i32::MAX as i64 {
                            Some(s as i32)
                        } else {
                            None
                        }
                    } else if str_eq(op.as_str(), "*") {
                        proof {
                            assert((-0x8000_0000_0000_0000 <= (x as int) * (y as int)
                                <= 0x7fff_ffff_ffff_ffff) && ((x as int) * (y as int) == (
                            x as i64 as int) * (y as i64 as int))) by (nonlinear_arith)
                                requires
                                    -0x8000_0000 <= x as int <= 0x7fff_ffff,
                                    -0x8000_0000 <= y as int <= 0x7fff_ffff,
                            {
                            }
                        }
                        let s = x as i64 * y as i64;
                        if i32::MIN as i64 <= s && s <= i32::MAX as i64 {
                            Some(s as i32)
                        } else {
                            None
                        }
                    } else if str_eq(op.as_str(), "/") {
                        if y == 0 || (x == i32::MIN && y == -1) {
                            None
                        } else {
                            Some(div_trunc_i32(x, y))
                        }
                    } else {
                        None
                    }
                },
                _ => None,
            };
            match folded {
                Some(v) => MTree::LIT_INT { value: v },
                None => MTree::EXPR { left: Box::new(l), op, right: Box::new(r) },
            }
        },
        other => other,
    }
}

/// Truncating division of two `i32` values; see [`div_trunc`].
pub(crate) fn div_trunc_i32(x: i32, y: i32) -> (r: i32)
    requires
        y != 0,
        !(x == i32::MIN && y == -1),
    ensures
        r as int == div_trunc(x as int, y as int),
{
    let neg = (x < 0) != (y < 0);
    let xa: i64 = if x >= 0 {
        x as i64
    } else {
        -(x as i64)
    };
    let ya: i64 = if y >= 0 {
        y as i64
    } else {
        -(y as i64)
    };
    let q: i64 = xa / ya;
    proof {
        assert(xa as int == vstd::math::abs(x as int));
        assert(ya as int == vstd::math::abs(y as int));
        assert(0 <= q as int <= xa as int) by (nonlinear_arith)
            requires
                q as int == xa as int / ya as int,
                xa >= 0,
                ya >= 1,
        {
        }
        if !neg && xa == 0x8000_0000i64 {
            assert(ya >= 2);
            assert(q as int <= xa as int / 2) by (nonlinear_arith)
                requires
                    q as int == xa as int / ya as int,
                    xa >= 0,
                    ya >= 2,
            {
            }
        }
    }
    let r: i64 = if neg {
        -q
    } else {
        q
    };
    r as i32
}

/// Fold integer-literal arithmetic in place; see [`fold_spec`]. Run after
/// lowering; the checker and the interpreter read the folded tree.
pub fn fold_constants(node: &mut MTree)
    ensures
        final(node)@ == fold_spec(old(node)@),
{
    let mut owned = MTree::LIT_INT { value: 0 };
    core::mem::swap(node, &mut owned);
    let folded = fold_owned(owned);
    *node = folded;
}

/// The printed name of a type.
pub open spec fn type_text(t: Type) -> Seq<char> {
    match t {
        Type::Int => "Int"@,
        Type::Bool => "Bool"@,
        Type::Unknown => "Unknown"@,
    }
}

/// The decimal digit character for `d`.
pub open spec fn digit_char(d: nat) -> char {
    if d == 0 {
        '0'
    } else if d == 1 {
        '1'
    } else if d == 2 {
        '2'
    } else if d == 3 {
        '3'
    } else if d == 4 {
        '4'
    } else if d == 5 {
        '5'
    } else if d == 6 {
        '6'
    } else if d == 7 {
        '7'
    } else if d == 8 {
        '8'
    } else {
        '9'
    }
}

/// The decimal text of a natural number.
pub open spec fn nat_text(n: nat) -> Seq<char>
    decreases n,
{
    if n < 10 {
        seq![digit_char(n)]
    } else {
        nat_text(n / 10).push(digit_char(n % 10))
    }
}

/// The printed name of a type; see [`type_text`].
fn type_label(t: Type) -> (r: String)
    ensures
        r@ == type_text(t),
{
    match t {
        Type::Int => String::from_str("Int"),
        Type::Bool => String::from_str("Bool"),
        Type::Unknown => String::from_str("Unknown"),
    }
}

/// The decimal digit character for `d`; see [`digit_char`].
fn digit_char_c(d: usize) -> (r: char)
    requires
        d < 10,
    ensures
        r == digit_char(d as nat),
{
    match d {
        0 => '0',
        1 => '1',
        2 => '2',
        3 => '3',
        4 => '4',
        5 => '5',
        6 => '6',
        7 => '7',
        8 => '8',
        _ => '9',
    }
}

/// The decimal text of a number; see [`nat_text`].
pub(crate) fn nat_string(n: usize) -> (r: String)
    ensures
        r@ == nat_text(n as nat),
    decreases n,
{
    if n < 10 {
        let mut s = String::new();
        crate::lexer::push_char(&mut s, digit_char_c(n));
        proof {
            assert(s@ =~= seq![digit_char(n as nat)]);
        }
        s
    } else {
        let mut s = nat_string(n / 10);
        crate::lexer::push_char(&mut s, digit_char_c(n % 10));
        s
    }
}

/// A function signature: the ordered parameter types and the return type,
/// keyed by name.
pub type FnSig = (String, Vec<Type>, Type);

/// The model of a signature table.
pub open spec fn sigs_model(s: Seq<FnSig>) -> Seq<(Seq<char>, Seq<Type>, Type)> {
    s.map_values(|f: FnSig| (f.0@, f.1@, f.2))
}

/// The signature of `name` in the table, if any.
pub open spec fn sig_find(m: Seq<(Seq<char>, Seq<Type>, Type)>, name: Seq<char>) -> Option<
    (Seq<Type>, Type),
>
    decreases m.len(),
{
    if m.len() == 0 {
        None
    } else if m.last().0 == name {
        Some((m.last().1, m.last().2))
    } else {
        sig_find(m.drop_last(), name)
    }
}

/// The message for declaring a function name twice.
pub open spec fn msg_fn_already(name: Seq<char>) -> Seq<char> {
    "Function '"@ + name + "' already declared"@
}

/// The message for calling an unknown function.
pub open spec fn msg_unknown_fn(name: Seq<char>) -> Seq<char> {
    "Call to unknown function '"@ + name + "'"@
}

/// The message for a body whose type disagrees with the declared return
/// type.
pub open spec fn msg_ret_mismatch(name: Seq<char>, ret: Type, bt: Type) -> Seq<char> {
    "Function '"@ + name + "' declared return type "@ + type_text(ret) + ", but body returns "@
        + type_text(bt)
}

/// The message for a declared return type with no return statement.
pub open spec fn msg_no_return(name: Seq<char>, ret: Type) -> Seq<char> {
    "Function '"@ + name + "' declares return type "@ + type_text(ret)
        + " but has no return statement"@
}

/// The message for an initializer that disagrees with the declared type.
pub open spec fn msg_let_mismatch(id: Seq<char>, ty: Type, et: Type) -> Seq<char> {
    "Type mismatch for '"@ + id + "': expected "@ + type_text(ty) + ", found "@ + type_text(et)
}

/// The message for an assignment that disagrees with the variable's type.
pub open spec fn msg_assign_mismatch(id: Seq<char>, vt: Type, et: Type) -> Seq<char> {
    "Assignment type mismatch for '"@ + id + "': "@ + type_text(vt) + " vs "@ + type_text(et)
}

/// The message for a while condition that is not boolean.
pub open spec fn msg_while_cond(t: Type) -> Seq<char> {
    "While condition must be Bool, found "@ + type_text(t)
}

/// The message for an if condition that is not boolean.
pub open spec fn msg_if_cond(t: Type) -> Seq<char> {
    "If condition must be Bool, found "@ + type_text(t)
}

/// The message for if branches of different types.
pub open spec fn msg_branches(t1: Type, t2: Type) -> Seq<char> {
    "If branches return different types: "@ + type_text(t1) + " vs "@ + type_text(t2)
}

/// The message for a logical-not operand that is not boolean.
pub open spec fn msg_unary_not(t: Type) -> Seq<char> {
    "Unary NOT requires Bool type, found "@ + type_text(t)
}

/// The message for a unary-minus operand that is not an integer.
pub open spec fn msg_unary_minus(t: Type) -> Seq<char> {
    "Unary minus requires Int type, found "@ + type_text(t)
}

/// The message for arithmetic on non-integer operands.
pub open spec fn msg_arith(op: Seq<char>, lt: Type, rt: Type) -> Seq<char> {
    "Arithmetic op '"@ + op + "' requires Int types, found "@ + type_text(lt) + " and "@
        + type_text(rt)
}

/// The message for an equality between different types.
pub open spec fn msg_cmp(op: Seq<char>, lt: Type, rt: Type) -> Seq<char> {
    "Comparison '"@ + op + "' requires matching types, found "@ + type_text(lt) + " and "@
        + type_text(rt)
}

/// The message for a relational operator on non-integer operands.
pub open spec fn msg_rel(op: Seq<char>, lt: Type, rt: Type) -> Seq<char> {
    "Relational op '"@ + op + "' requires Int types, found "@ + type_text(lt) + " and "@
        + type_text(rt)
}

/// The message for a logical operator on non-boolean operands.
pub open spec fn msg_logic(op: Seq<char>, lt: Type, rt: Type) -> Seq<char> {
    "Logical op '"@ + op + "' requires Bool types, found "@ + type_text(lt) + " and "@
        + type_text(rt)
}

/// The message for a call with the wrong number of arguments.
pub open spec fn msg_arity(name: Seq<char>, np: nat, na: nat) -> Seq<char> {
    "Function '"@ + name + "' expects "@ + nat_text(np) + " args but "@ + nat_text(na)
        + " provided"@
}

/// The message for an argument of the wrong type.
pub open spec fn msg_arg(i: nat, name: Seq<char>, pt: Type, at: Type) -> Seq<char> {
    "Argument "@ + nat_text(i) + " of '"@ + name + "' expects "@ + type_text(pt) + ", found "@
        + type_text(at)
}

/// Collect the signatures of the program's function declarations, in order,
/// keeping the first of duplicate names and reporting the others.
pub open spec fn sigs_step(funcs: Seq<Ast>, acc: Seq<(Seq<char>, Seq<Type>, Type)>) -> (
    Seq<(Seq<char>, Seq<Type>, Type)>,
    Seq<Seq<char>>,
)
    decreases funcs,
{
    if funcs.len() == 0 {
        (acc, Seq::empty())
    } else {
        match funcs[0] {
            Ast::FuncDecl { name, params, ret_type, .. } => {
                if sig_find(acc, name) matches Some(_) {
                    let (s, e) = sigs_step(funcs.drop_first(), acc);
                    (s, seq![msg_fn_already(name)] + e)
                } else {
                    sigs_step(
                        funcs.drop_first(),
                        acc.push((name, params.map_values(|p: (Seq<char>, Type)| p.1), ret_type)),
                    )
                }
            },
            _ => sigs_step(funcs.drop_first(), acc),
        }
    }
}

/// Whether a return statement is reachable anywhere in the node's
/// block-and-if structure.
pub open spec fn has_return(a: Ast) -> bool
    decreases a, 0int,
{
    match a {
        Ast::RtrnStmt { .. } => true,
        Ast::Block { stmts } => any_has_return(stmts),
        Ast::IfStmt { then_block, else_block, .. } => has_return(*then_block) || (match else_block {
            Some(b) => has_return(*b),
            None => false,
        }),
        Ast::FuncDecl { body, .. } => has_return(*body),
        Ast::Start { funcs } => any_has_return(funcs),
        _ => false,
    }
}

/// Whether any node of the sequence holds a reachable return.
pub open spec fn any_has_return(stmts: Seq<Ast>) -> bool
    decreases stmts, 1int,
{
    if stmts.len() == 0 {
        false
    } else {
        has_return(stmts[0]) || any_has_return(stmts.drop_first())
    }
}

/// Seed a fresh table with a function's parameters; a duplicate parameter
/// name keeps its first binding.
pub open spec fn seed_params(ps: Seq<(Seq<char>, Type)>, acc: Seq<(Seq<char>, Type)>) -> Seq<
    (Seq<char>, Type),
>
    decreases ps,
{
    if ps.len() == 0 {
        acc
    } else {
        let acc2 = if st_find(acc, ps[0].0) matches Some(_) {
            acc
        } else {
            acc.push(ps[0])
        };
        seed_params(ps.drop_first(), acc2)
    }
}

/// The errors and the type of a binary operator applied to operands of the
/// given types.
pub open spec fn binop_out(op: Seq<char>, lt: Type, rt: Type) -> (Seq<Seq<char>>, Type) {
    if op == "+"@ || op == "-"@ || op == "*"@ || op == "/"@ {
        let e = if (lt != Type::Int && lt != Type::Unknown) || (rt != Type::Int && rt
            != Type::Unknown) {
            seq![msg_arith(op, lt, rt)]
        } else {
            Seq::empty()
        };
        (e, Type::Int)
    } else if op == "=="@ || op == "!="@ {
        let e = if lt != rt && lt != Type::Unknown && rt != Type::Unknown {
            seq![msg_cmp(op, lt, rt)]
        } else {
            Seq::empty()
        };
        (e, Type::Bool)
    } else if op == "<"@ || op == ">"@ || op == ">="@ || op == "<="@ {
        let e = if (lt != Type::Int && lt != Type::Unknown) || (rt != Type::Int && rt
            != Type::Unknown) {
            seq![msg_rel(op, lt, rt)]
        } else {
            Seq::empty()
        };
        (e, Type::Bool)
    } else if op == "&&"@ || op == "||"@ {
        let e = if (lt != Type::Bool && lt != Type::Unknown) || (rt != Type::Bool && rt
            != Type::Unknown) {
            seq![msg_logic(op, lt, rt)]
        } else {
            Seq::empty()
        };
        (e, Type::Bool)
    } else {
        (Seq::empty(), Type::Unknown)
    }
}

/// The errors and the type of a call of `name` whose arguments have the
/// given types.
pub open spec fn call_out(
    sigs: Seq<(Seq<char>, Seq<Type>, Type)>,
    name: Seq<char>,
    tys: Seq<Type>,
) -> (Seq<Seq<char>>, Type) {
    match sig_find(sigs, name) {
        Some((ptypes, ret)) => {
            let e = if ptypes.len() != tys.len() {
                seq![msg_arity(name, ptypes.len(), tys.len())]
            } else {
                arg_errs(ptypes, tys, name, 0)
            };
            (e, ret)
        },
        None => (seq![msg_unknown_fn(name)], Type::Unknown),
    }
}

/// The table and errors after binding a let statement's name: the optional
/// initializer's type is checked against the declared type, the bound type
/// is inferred from the initializer when no type was declared, and a
/// redeclaration is an error that leaves the table unchanged.
pub open spec fn let_out(id: Seq<char>, ty: Type, et: Option<Type>, tm: Seq<(Seq<char>, Type)>) -> (
    Seq<(Seq<char>, Type)>,
    Seq<Seq<char>>,
) {
    let e1 = match et {
        Some(t) => if ty != Type::Unknown && t != ty && t != Type::Unknown {
            seq![msg_let_mismatch(id, ty, t)]
        } else {
            Seq::empty()
        },
        None => Seq::empty(),
    };
    let inferred = match et {
        Some(t) => if ty == Type::Unknown {
            t
        } else {
            ty
        },
        None => ty,
    };
    match st_find(tm, id) {
        Some(_) => (tm, e1 + seq![msg_already_declared(id)]),
        None => (tm.push((id, inferred)), e1),
    }
}

/// The errors a function declaration adds after its body is checked: one
/// when the body's type disagrees with the declared return type, one when a
/// declared return type has no return statement.
pub open spec fn func_out(name: Seq<char>, ret: Type, bt: Type, hr: bool) -> Seq<Seq<char>> {
    let e1 = if ret != Type::Unknown && bt != ret && bt != Type::Unknown {
        seq![msg_ret_mismatch(name, ret, bt)]
    } else {
        Seq::empty()
    };
    let e2 = if ret != Type::Unknown && !hr {
        seq![msg_no_return(name, ret)]
    } else {
        Seq::empty()
    };
    e1 + e2
}

/// The outcome of checking one node: the table afterwards, the errors the
/// node adds in order, and the node's inferred type.
pub ghost struct CheckOut {
    pub tm: Seq<(Seq<char>, Type)>,
    pub errs: Seq<Seq<char>>,
    pub ty: Type,
}

/// Check one node of the semantic tree: infer its type, accumulate every
/// error rather than stopping, and thread the symbol table. `Unknown` never
/// counts as a mismatch against anything.
pub open spec fn check_s(
    a: Ast,
    tm: Seq<(Seq<char>, Type)>,
    sigs: Seq<(Seq<char>, Seq<Type>, Type)>,
) -> CheckOut
    decreases a, 0int,
{
    match a {
        Ast::Start { funcs } => {
            let o = check_list_s(funcs, tm, sigs);
            CheckOut { tm: o.tm, errs: o.errs, ty: Type::Unknown }
        },
        Ast::FuncDecl { name, params, ret_type, body } => {
            let local = seed_params(params, Seq::empty());
            let o = check_s(*body, local, sigs);
            CheckOut {
                tm,
                errs: o.errs + func_out(name, ret_type, o.ty, has_return(*body)),
                ty: Type::Unknown,
            }
        },
        Ast::Block { stmts } => check_list_s(stmts, tm, sigs),
        Ast::LetStmt { id, ty, expr } => {
            match expr {
                Some(e) => {
                    let o = check_s(*e, tm, sigs);
                    let (tm2, e2) = let_out(id, ty, Some(o.ty), o.tm);
                    CheckOut { tm: tm2, errs: o.errs + e2, ty: Type::Unknown }
                },
                None => {
                    let (tm2, e2) = let_out(id, ty, None, tm);
                    CheckOut { tm: tm2, errs: e2, ty: Type::Unknown }
                },
            }
        },
        Ast::Assign { id, expr } => {
            match st_find(tm, id) {
                Some(vt) => {
                    let o = check_s(*expr, tm, sigs);
                    let e1 = if vt != o.ty && o.ty != Type::Unknown && vt != Type::Unknown {
                        seq![msg_assign_mismatch(id, vt, o.ty)]
                    } else {
                        Seq::empty()
                    };
                    CheckOut { tm: o.tm, errs: o.errs + e1, ty: Type::Unknown }
                },
                None => CheckOut { tm, errs: seq![msg_not_declared(id)], ty: Type::Unknown },
            }
        },
        Ast::RtrnStmt { expr } => check_s(*expr, tm, sigs),
        Ast::WhileStmt { cond, body } => {
            let oc = check_s(*cond, tm, sigs);
            let e1 = if oc.ty != Type::Bool && oc.ty != Type::Unknown {
                seq![msg_while_cond(oc.ty)]
            } else {
                Seq::empty()
            };
            let ob = check_s(*body, oc.tm, sigs);
            CheckOut { tm: ob.tm, errs: oc.errs + e1 + ob.errs, ty: Type::Unknown }
        },
        Ast::IfStmt { cond, then_block, else_block } => {
            let oc = check_s(*cond, tm, sigs);
            let e1 = if oc.ty != Type::Bool && oc.ty != Type::Unknown {
                seq![msg_if_cond(oc.ty)]
            } else {
                Seq::empty()
            };
            let ot = check_s(*then_block, oc.tm, sigs);
            let oe = match else_block {
                Some(b) => check_s(*b, ot.tm, sigs),
                None => CheckOut { tm: ot.tm, errs: Seq::empty(), ty: Type::Unknown },
            };
            let e2 = if ot.ty != Type::Unknown && oe.ty != Type::Unknown && ot.ty != oe.ty {
                seq![msg_branches(ot.ty, oe.ty)]
            } else {
                Seq::empty()
            };
            let ty = if ot.ty != Type::Unknown {
                ot.ty
            } else {
                oe.ty
            };
            CheckOut { tm: oe.tm, errs: oc.errs + e1 + ot.errs + oe.errs + e2, ty }
        },
        Ast::PrintStmt { expr } => {
            let o = check_s(*expr, tm, sigs);
            CheckOut { tm: o.tm, errs: o.errs, ty: Type::Unknown }
        },
        Ast::Expr { left, op, right } => {
            let orr = check_s(*right, tm, sigs);
            if op == "!"@ {
                let e1 = if orr.ty != Type::Bool && orr.ty != Type::Unknown {
                    seq![msg_unary_not(orr.ty)]
                } else {
                    Seq::empty()
                };
                CheckOut { tm: orr.tm, errs: orr.errs + e1, ty: Type::Bool }
            } else if op == "unary-"@ {
                let e1 = if orr.ty != Type::Int && orr.ty != Type::Unknown {
                    seq![msg_unary_minus(orr.ty)]
                } else {
                    Seq::empty()
                };
                CheckOut { tm: orr.tm, errs: orr.errs + e1, ty: Type::Int }
            } else {
                let ol = check_s(*left, orr.tm, sigs);
                let (e1, ty) = binop_out(op, ol.ty, orr.ty);
                CheckOut { tm: ol.tm, errs: orr.errs + ol.errs + e1, ty }
            }
        },
        Ast::Call { name, args } => {
            let oa = check_args_s(args, tm, sigs);
            let (e1, ty) = call_out(sigs, name, oa.tys);
            CheckOut { tm: oa.tm, errs: oa.errs + e1, ty }
        },
        Ast::Id { name } => {
            match st_find(tm, name) {
                Some(t) => CheckOut { tm, errs: Seq::empty(), ty: t },
                None => CheckOut { tm, errs: seq![msg_not_declared(name)], ty: Type::Unknown },
            }
        },
        Ast::LitInt { .. } => CheckOut { tm, errs: Seq::empty(), ty: Type::Int },
        Ast::LitBool { .. } => CheckOut { tm, errs: Seq::empty(), ty: Type::Bool },
    }
}

/// Check the statements of a block in order; the block's type is its last
/// statement's type.
pub open spec fn check_list_s(
    stmts: Seq<Ast>,
    tm: Seq<(Seq<char>, Type)>,
    sigs: Seq<(Seq<char>, Seq<Type>, Type)>,
) -> CheckOut
    decreases stmts, 1int,
{
    if stmts.len() == 0 {
        CheckOut { tm, errs: Seq::empty(), ty: Type::Unknown }
    } else {
        let o1 = check_s(stmts[0], tm, sigs);
        let o2 = check_list_s(stmts.drop_first(), o1.tm, sigs);
        let ty = if stmts.len() == 1 {
            o1.ty
        } else {
            o2.ty
        };
        CheckOut { tm: o2.tm, errs: o1.errs + o2.errs, ty }
    }
}

/// The outcome of checking an argument list: the table, the errors, and the
/// argument types in order.
pub ghost struct ArgsOut {
    pub tm: Seq<(Seq<char>, Type)>,
    pub errs: Seq<Seq<char>>,
    pub tys: Seq<Type>,
}

/// Check the arguments of a call in order.
pub open spec fn check_args_s(
    args: Seq<Ast>,
    tm: Seq<(Seq<char>, Type)>,
    sigs: Seq<(Seq<char>, Seq<Type>, Type)>,
) -> ArgsOut
    decreases args, 1int,
{
    if args.len() == 0 {
        ArgsOut { tm, errs: Seq::empty(), tys: Seq::empty() }
    } else {
        let o1 = check_s(args[0], tm, sigs);
        let o2 = check_args_s(args.drop_first(), o1.tm, sigs);
        ArgsOut { tm: o2.tm, errs: o1.errs + o2.errs, tys: seq![o1.ty] + o2.tys }
    }
}

/// The per-argument mismatch messages of a call, argument positions counted
/// from one.
pub open spec fn arg_errs(ptypes: Seq<Type>, atypes: Seq<Type>, name: Seq<char>, i: int) -> Seq<
    Seq<char>,
>
    decreases ptypes.len() - i when 0 <= i <= ptypes.len() && ptypes.len() == atypes.len()
{
    if i >= ptypes.len() {
        Seq::empty()
    } else {
        let here = if ptypes[i] != atypes[i] && ptypes[i] != Type::Unknown && atypes[i]
            != Type::Unknown {
            seq![msg_arg((i + 1) as nat, name, ptypes[i], atypes[i])]
        } else {
            Seq::empty()
        };
        here + arg_errs(ptypes, atypes, name, i + 1)
    }
}

/// The whole checker run on a tree: the signature table's duplicate errors
/// first, then the walk's errors.
pub open spec fn analyze_s(
    a: Ast,
    tm: Seq<(Seq<char>, Type)>,
) -> (Seq<(Seq<char>, Type)>, Seq<Seq<char>>, Type) {
    let sig_errs = match a {
        Ast::Start { funcs } => sigs_step(funcs, Seq::empty()).1,
        _ => Seq::empty(),
    };
    let sigs = match a {
        Ast::Start { funcs } => sigs_step(funcs, Seq::empty()).0,
        _ => Seq::empty(),
    };
    let o = check_s(a, tm, sigs);
    (o.tm, sig_errs + o.errs, o.ty)
}

/// The models of a sequence of strings.
pub open spec fn strs_model(s: Seq<String>) -> Seq<Seq<char>> {
    s.map_values(|x: String| x@)
}

/// The message for declaring a function name twice; see [`msg_fn_already`].
fn m_fn_already(name: &str) -> (r: String)
    ensures
        r@ == msg_fn_already(name@),
{
    String::from_str("Function '").concat(name).concat("' already declared")
}

/// The message for calling an unknown function; see [`msg_unknown_fn`].
fn m_unknown_fn(name: &str) -> (r: String)
    ensures
        r@ == msg_unknown_fn(name@),
{
    String::from_str("Call to unknown function '").concat(name).concat("'")
}

/// The message for a body type that disagrees with the declared return type;
/// see [`msg_ret_mismatch`].
fn m_ret_mismatch(name: &str, ret: Type, bt: Type) -> (r: String)
    ensures
        r@ == msg_ret_mismatch(name@, ret, bt),
{
    let tr = type_label(ret);
    let tb = type_label(bt);
    String::from_str("Function '").concat(name).concat("' declared return type ").concat(
        tr.as_str(),
    ).concat(", but body returns ").concat(tb.as_str())
}

/// The message for a declared return type with no return statement; see
/// [`msg_no_return`].
fn m_no_return(name: &str, ret: Type) -> (r: String)
    ensures
        r@ == msg_no_return(name@, ret),
{
    let tr = type_label(ret);
    String::from_str("Function '").concat(name).concat("' declares return type ").concat(
        tr.as_str(),
    ).concat(" but has no return statement")
}

/// The message for an initializer that disagrees with the declared type; see
/// [`msg_let_mismatch`].
fn m_let_mismatch(id: &str, ty: Type, et: Type) -> (r: String)
    ensures
        r@ == msg_let_mismatch(id@, ty, et),
{
    let t1 = type_label(ty);
    let t2 = type_label(et);
    String::from_str("Type mismatch for '").concat(id).concat("': expected ").concat(
        t1.as_str(),
    ).concat(", found ").concat(t2.as_str())
}

/// The message for an assignment that disagrees with the variable's type;
/// see [`msg_assign_mismatch`].
fn m_assign_mismatch(id: &str, vt: Type, et: Type) -> (r: String)
    ensures
        r@ == msg_assign_mismatch(id@, vt, et),
{
    let t1 = type_label(vt);
    let t2 = type_label(et);
    String::from_str("Assignment type mismatch for '").concat(id).concat("': ").concat(
        t1.as_str(),
    ).concat(" vs ").concat(t2.as_str())
}

/// One message naming a required operand type; the callers fix the text.
fn m_cond(prefix: &str, t: Type) -> (r: String)
    ensures
        r@ == prefix@ + type_text(t),
{
    let tl = type_label(t);
    String::from_str(prefix).concat(tl.as_str())
}

/// The message for if branches of different types; see [`msg_branches`].
fn m_branches(t1: Type, t2: Type) -> (r: String)
    ensures
        r@ == msg_branches(t1, t2),
{
    let a = type_label(t1);
    let b = type_label(t2);
    String::from_str("If branches return different types: ").concat(a.as_str()).concat(
        " vs ",
    ).concat(b.as_str())
}

/// One message naming an operator and the two operand types found; the
/// callers fix the text around them.
fn m_op_types(prefix: &str, op: &str, mid: &str, lt: Type, rt: Type) -> (r: String)
    ensures
        r@ == prefix@ + op@ + mid@ + type_text(lt) + " and "@ + type_text(rt),
{
    let a = type_label(lt);
    let b = type_label(rt);
    String::from_str(prefix).concat(op).concat(mid).concat(a.as_str()).concat(" and ").concat(
        b.as_str(),
    )
}

/// The message for a call with the wrong number of arguments; see
/// [`msg_arity`].
fn m_arity(name: &str, np: usize, na: usize) -> (r: String)
    ensures
        r@ == msg_arity(name@, np as nat, na as nat),
{
    let a = nat_string(np);
    let b = nat_string(na);
    String::from_str("Function '").concat(name).concat("' expects ").concat(a.as_str()).concat(
        " args but ",
    ).concat(b.as_str()).concat(" provided")
}

/// The message for an argument of the wrong type; see [`msg_arg`].
fn m_arg(i: usize, name: &str, pt: Type, at: Type) -> (r: String)
    ensures
        r@ == msg_arg(i as nat, name@, pt, at),
{
    let n = nat_string(i);
    let a = type_label(pt);
    let b = type_label(at);
    String::from_str("Argument ").concat(n.as_str()).concat(" of '").concat(name).concat(
        "' expects ",
    ).concat(a.as_str()).concat(", found ").concat(b.as_str())
}

/// The parameter types of a parameter list, in order.
fn types_of_params(params: &Vec<(String, Type)>) -> (r: Vec<Type>)
    ensures
        r@ == params_model(params@).map_values(|p: (Seq<char>, Type)| p.1),
{
    let mut r: Vec<Type> = Vec::new();
    let mut i: usize = 0;
    while i < params.len()
        invariant
            i <= params@.len(),
            r@.len() == i,
            forall|j: int| 0 <= j < i ==> r@[j] == params@[j].1,
        decreases params@.len() - i,
    {
        r.push(params[i].1);
        i = i + 1;
    }
    proof {
        assert(r@ =~= params_model(params@).map_values(|p: (Seq<char>, Type)| p.1));
    }
    r
}

/// The position of `name` in the signature table, searching the latest
/// binding first.
fn find_sig(sigs: &Vec<FnSig>, name: &str) -> (r: Option<usize>)
    ensures
        match r {
            Some(i) => i < sigs@.len() && sig_find(sigs_model(sigs@), name@) == Some(
                (sigs@[i as int].1@, sigs@[i as int].2),
            ),
            None => sig_find(sigs_model(sigs@), name@) is None,
        },
{
    let ghost m = sigs_model(sigs@);
    let mut i: usize = sigs.len();
    proof {
        assert(m.subrange(0, m.len() as int) =~= m);
    }
    while i > 0
        invariant
            i <= sigs@.len(),
            m == sigs_model(sigs@),
            sig_find(m, name@) == sig_find(m.subrange(0, i as int), name@),
        decreases i,
    {
        i = i - 1;
        let ghost mi = m.subrange(0, i + 1);
        proof {
            assert(mi.last() == m[i as int]);
            assert(mi.drop_last() =~= m.subrange(0, i as int));
        }
        if str_eq(sigs[i].0.as_str(), name) {
            return Some(i);
        }
    }
    proof {
        assert(m.subrange(0, 0) =~= Seq::<(Seq<char>, Seq<Type>, Type)>::empty());
    }
    None
}

/// Collect the program's function signatures; see [`sigs_step`].
fn build_sigs(funcs: &Vec<MTree>, i: usize, sigs: &mut Vec<FnSig>, errors: &mut Vec<String>)
    requires
        i <= funcs@.len(),
    ensures
        ({
            let (s, e) = sigs_step(
                asts_of(funcs@).subrange(i as int, funcs@.len() as int),
                sigs_model(old(sigs)@),
            );
            sigs_model(final(sigs)@) == s && strs_model(final(errors)@) == strs_model(
                old(errors)@,
            ) + e
        }),
    decreases funcs@.len() - i,
{
    proof {
        lemma_asts_of(funcs@);
    }
    let ghost suffix = asts_of(funcs@).subrange(i as int, funcs@.len() as int);
    if i == funcs.len() {
        proof {
            assert(suffix =~= Seq::<Ast>::empty());
            assert(strs_model(errors@) + Seq::<Seq<char>>::empty() =~= strs_model(errors@));
        }
        return ;
    }
    proof {
        assert(suffix[0] == funcs@[i as int]@);
        assert(suffix.drop_first() =~= asts_of(funcs@).subrange(i + 1, funcs@.len() as int));
    }
    let ghost e_before = strs_model(errors@);
    match &funcs[i] {
        MTree::FUNC_DECL { name, params, ret_type, .. } => {
            if find_sig(sigs, name.as_str()).is_some() {
                errors.push(m_fn_already(name.as_str()));
                proof {
                    assert(strs_model(errors@) =~= e_before.push(msg_fn_already(name@)));
                }
            } else {
                let ghost s_before = sigs_model(sigs@);
                sigs.push((name.clone(), types_of_params(params), *ret_type));
                proof {
                    assert(sigs_model(sigs@) =~= s_before.push(
                        (
                            name@,
                            params_model(params@).map_values(|p: (Seq<char>, Type)| p.1),
                            *ret_type,
                        ),
                    ));
                }
            }
        },
        _ => {},
    }
    build_sigs(funcs, i + 1, sigs, errors);
    proof {
        let (s, e) = sigs_step(suffix, sigs_model(old(sigs)@));
        assert(strs_model(errors@) =~= strs_model(old(errors)@) + e);
    }
}

/// Whether a return statement is reachable in the node; see [`has_return`].
fn has_return_c(node: &MTree) -> (r: bool)
    ensures
        r == has_return(node@),
    decreases *node, 0int, 0int
{
    match node {
        MTree::RTRN_STMT { .. } => true,
        MTree::BLOCK { stmts } => {
            proof {
                lemma_asts_of(stmts@);
                assert(asts_of(stmts@).subrange(0, stmts@.len() as int) =~= asts_of(stmts@));
            }
            any_has_return_c(stmts, 0)
        },
        MTree::IF_STMT { then_block, else_block, .. } => {
            if has_return_c(then_block) {
                true
            } else {
                match else_block {
                    Some(b) => has_return_c(b),
                    None => false,
                }
            }
        },
        MTree::FUNC_DECL { body, .. } => has_return_c(body),
        MTree::START { funcs } => {
            proof {
                lemma_asts_of(funcs@);
                assert(asts_of(funcs@).subrange(0, funcs@.len() as int) =~= asts_of(funcs@));
            }
            any_has_return_c(funcs, 0)
        },
        _ => false,
    }
}

/// Whether any node of `v[i..]` holds a reachable return.
fn any_has_return_c(v: &Vec<MTree>, i: usize) -> (r: bool)
    requires
        i <= v@.len(),
    ensures
        r == any_has_return(asts_of(v@).subrange(i as int, v@.len() as int)),
    decreases v@, v@.len() - i, 1int
{
    proof {
        lemma_asts_of(v@);
    }
    let ghost suffix = asts_of(v@).subrange(i as int, v@.len() as int);
    if i == v.len() {
        proof {
            assert(suffix =~= Seq::<Ast>::empty());
        }
        return false;
    }
    proof {
        assert(suffix[0] == v@[i as int]@);
        assert(suffix.drop_first() =~= asts_of(v@).subrange(i + 1, v@.len() as int));
    }
    if has_return_c(&v[i]) {
        true
    } else {
        any_has_return_c(v, i + 1)
    }
}

/// The per-argument mismatch messages of a call; see [`arg_errs`].
fn emit_arg_errs(
    ptypes: &Vec<Type>,
    atypes: &Vec<Type>,
    name: &str,
    i: usize,
    errors: &mut Vec<String>,
)
    requires
        i <= ptypes@.len(),
        ptypes@.len() == atypes@.len(),
    ensures
        strs_model(final(errors)@) == strs_model(old(errors)@) + arg_errs(
            ptypes@,
            atypes@,
            name@,
            i as int,
        ),
    decreases ptypes@.len() - i,
{
    let ghost e_before = strs_model(errors@);
    if i == ptypes.len() {
        proof {
            assert(e_before + Seq::<Seq<char>>::empty() =~= e_before);
        }
        return ;
    }
    let pt = ptypes[i];
    let at = atypes[i];
    if pt != at && !matches!(pt, Type::Unknown) && !matches!(at, Type::Unknown) {
        errors.push(m_arg(i + 1, name, pt, at));
        proof {
            assert(strs_model(errors@) =~= e_before.push(msg_arg((i + 1) as nat, name@, pt, at)));
        }
    }
    emit_arg_errs(ptypes, atypes, name, i + 1, errors);
    proof {
        assert(strs_model(errors@) =~= e_before + arg_errs(ptypes@, atypes@, name@, i as int));
    }
}

/// Push the errors of a binary operator on the given operand types; see
/// [`binop_out`].
fn binop_errors(op: &String, lt: Type, rt: Type, errors: &mut Vec<String>) -> (t: Type)
    ensures
        ({
            let (e, ty) = binop_out(op@, lt, rt);
            strs_model(final(errors)@) == strs_model(old(errors)@) + e && t == ty
        }),
{
    let ghost e0 = strs_model(errors@);
    let int_ok = matches!(lt, Type::Int | Type::Unknown) && matches!(rt, Type::Int | Type::Unknown);
    let bool_ok = matches!(lt, Type::Bool | Type::Unknown) && matches!(
        rt,
        Type::Bool | Type::Unknown,
    );
    let t = if str_eq(op.as_str(), "+") || str_eq(op.as_str(), "-") || str_eq(op.as_str(), "*")
        || str_eq(op.as_str(), "/") {
        if !int_ok {
            errors.push(
                m_op_types("Arithmetic op '", op.as_str(), "' requires Int types, found ", lt, rt),
            );
            proof {
                assert(strs_model(errors@) =~= e0.push(msg_arith(op@, lt, rt)));
            }
        }
        Type::Int
    } else if str_eq(op.as_str(), "==") || str_eq(op.as_str(), "!=") {
        if lt != rt && !matches!(lt, Type::Unknown) && !matches!(rt, Type::Unknown) {
            errors.push(
                m_op_types("Comparison '", op.as_str(), "' requires matching types, found ", lt, rt),
            );
            proof {
                assert(strs_model(errors@) =~= e0.push(msg_cmp(op@, lt, rt)));
            }
        }
        Type::Bool
    } else if str_eq(op.as_str(), "<") || str_eq(op.as_str(), ">") || str_eq(op.as_str(), ">=")
        || str_eq(op.as_str(), "<=") {
        if !int_ok {
            errors.push(
                m_op_types("Relational op '", op.as_str(), "' requires Int types, found ", lt, rt),
            );
            proof {
                assert(strs_model(errors@) =~= e0.push(msg_rel(op@, lt, rt)));
            }
        }
        Type::Bool
    } else if str_eq(op.as_str(), "&&") || str_eq(op.as_str(), "||") {
        if !bool_ok {
            errors.push(
                m_op_types("Logical op '", op.as_str(), "' requires Bool types, found ", lt, rt),
            );
            proof {
                assert(strs_model(errors@) =~= e0.push(msg_logic(op@, lt, rt)));
            }
        }
        Type::Bool
    } else {
        Type::Unknown
    };
    proof {
        let (e, ty) = binop_out(op@, lt, rt);
        assert(strs_model(errors@) =~= e0 + e);
    }
    t
}

/// Push the errors of a call of `name` on arguments of the given types; see
/// [`call_out`].
fn call_errors(sigs: &Vec<FnSig>, name: &String, tys: &Vec<Type>, errors: &mut Vec<String>) -> (t:
    Type)
    ensures
        ({
            let (e, ty) = call_out(sigs_model(sigs@), name@, tys@);
            strs_model(final(errors)@) == strs_model(old(errors)@) + e && t == ty
        }),
{
    let ghost e0 = strs_model(errors@);
    let t = match find_sig(sigs, name.as_str()) {
        Some(k) => {
            let np = sigs[k].1.len();
            if np != tys.len() {
                errors.push(m_arity(name.as_str(), np, tys.len()));
                proof {
                    assert(strs_model(errors@) =~= e0.push(
                        msg_arity(name@, np as nat, tys@.len()),
                    ));
                }
            } else {
                emit_arg_errs(&sigs[k].1, tys, name.as_str(), 0, errors);
            }
            sigs[k].2
        },
        None => {
            errors.push(m_unknown_fn(name.as_str()));
            proof {
                assert(strs_model(errors@) =~= e0.push(msg_unknown_fn(name@)));
            }
            Type::Unknown
        },
    };
    proof {
        let (e, ty) = call_out(sigs_model(sigs@), name@, tys@);
        assert(strs_model(errors@) =~= e0 + e);
    }
    t
}

/// A fresh table seeded with a function's parameters; see [`seed_params`].
fn seed_table(params: &Vec<(String, Type)>) -> (r: SymbolTable)
    ensures
        r.model() == seed_params(params_model(params@), Seq::empty()),
{
    let mut local = SymbolTable::new();
    let mut j: usize = 0;
    proof {
        assert(params_model(params@).subrange(0, params@.len() as int) =~= params_model(params@));
    }
    while j < params.len()
        invariant
            j <= params@.len(),
            seed_params(params_model(params@), Seq::empty()) == seed_params(
                params_model(params@).subrange(j as int, params@.len() as int),
                local.model(),
            ),
        decreases params@.len() - j,
    {
        let ghost pre = params_model(params@).subrange(j as int, params@.len() as int);
        proof {
            assert(pre[0] == params_model(params@)[j as int]);
            assert(pre.drop_first() =~= params_model(params@).subrange(
                j + 1,
                params@.len() as int,
            ));
        }
        let _ = local.declare(params[j].0.as_str(), params[j].1);
        j = j + 1;
    }
    proof {
        assert(params_model(params@).subrange(params@.len() as int, params@.len() as int)
            =~= Seq::<(Seq<char>, Type)>::empty());
    }
    local
}

/// Bind a let statement's name and push its errors; see [`let_out`].
fn let_finish(id: &String, ty: Type, et: Option<Type>, symbols: &mut SymbolTable, errors: &mut Vec<
    String,
>)
    ensures
        ({
            let (tm2, e2) = let_out(id@, ty, et, old(symbols).model());
            final(symbols).model() == tm2 && strs_model(final(errors)@) == strs_model(
                old(errors)@,
            ) + e2
        }),
{
    let ghost e0 = strs_model(errors@);
    if let Some(t) = et {
        if !matches!(ty, Type::Unknown) && t != ty && !matches!(t, Type::Unknown) {
            errors.push(m_let_mismatch(id.as_str(), ty, t));
            proof {
                assert(strs_model(errors@) =~= e0.push(msg_let_mismatch(id@, ty, t)));
            }
        }
    }
    let inferred = match et {
        Some(t) => if matches!(ty, Type::Unknown) {
            t
        } else {
            ty
        },
        None => ty,
    };
    let ghost e1 = strs_model(errors@);
    match symbols.declare(id.as_str(), inferred) {
        Ok(_) => {},
        Err(m) => {
            let ghost mm = m@;
            errors.push(m);
            proof {
                assert(strs_model(errors@) =~= e1.push(mm));
            }
        },
    }
    proof {
        let (tm2, e2) = let_out(id@, ty, et, old(symbols).model());
        assert(strs_model(errors@) =~= e0 + e2);
    }
}

/// Push a checked function declaration's errors; see [`func_out`].
fn func_finish(name: &String, ret: Type, bt: Type, hr: bool, errors: &mut Vec<String>)
    ensures
        strs_model(final(errors)@) == strs_model(old(errors)@) + func_out(name@, ret, bt, hr),
{
    let ghost e0 = strs_model(errors@);
    if !matches!(ret, Type::Unknown) && bt != ret && !matches!(bt, Type::Unknown) {
        errors.push(m_ret_mismatch(name.as_str(), ret, bt));
        proof {
            assert(strs_model(errors@) =~= e0.push(msg_ret_mismatch(name@, ret, bt)));
        }
    }
    let ghost e1 = strs_model(errors@);
    if !matches!(ret, Type::Unknown) && !hr {
        errors.push(m_no_return(name.as_str(), ret));
        proof {
            assert(strs_model(errors@) =~= e1.push(msg_no_return(name@, ret)));
        }
    }
    proof {
        assert(strs_model(errors@) =~= e0 + func_out(name@, ret, bt, hr));
    }
}

/// Check one node; see [`check_s`].
fn check_node(
    node: &MTree,
    symbols: &mut SymbolTable,
    errors: &mut Vec<String>,
    sigs: &Vec<FnSig>,
) -> (t: Type)
    ensures
        ({
            let o = check_s(node@, old(symbols).model(), sigs_model(sigs@));
            final(symbols).model() == o.tm && strs_model(final(errors)@) == strs_model(
                old(errors)@,
            ) + o.errs && t == o.ty
        }),
    decreases *node, 0int, 1int
{
    let ghost tm0 = symbols.model();
    let ghost e0 = strs_model(errors@);
    let ghost sg = sigs_model(sigs@);
    match node {
        MTree::START { funcs } => {
            proof {
                lemma_asts_of(funcs@);
                assert(asts_of(funcs@).subrange(0, funcs@.len() as int) =~= asts_of(funcs@));
            }
            check_list(funcs, 0, symbols, errors, sigs);
            Type::Unknown
        },
        MTree::BLOCK { stmts } => {
            proof {
                lemma_asts_of(stmts@);
                assert(asts_of(stmts@).subrange(0, stmts@.len() as int) =~= asts_of(stmts@));
            }
            check_list(stmts, 0, symbols, errors, sigs)
        },
        MTree::RTRN_STMT { expr } => check_node(expr, symbols, errors, sigs),
        MTree::PRINT_STMT { expr } => {
            check_node(expr, symbols, errors, sigs);
            Type::Unknown
        },
        MTree::ID { name } => {
            match symbols.check(name.as_str()) {
                Ok(t) => t,
                Err(m) => {
                    let ghost mm = m@;
                    errors.push(m);
                    proof {
                        assert(strs_model(errors@) =~= e0.push(mm));
                        let o = check_s(node@, tm0, sg);
                        assert(strs_model(errors@) =~= e0 + o.errs);
                    }
                    Type::Unknown
                },
            }
        },
        MTree::LIT_INT { .. } => Type::Int,
        MTree::LIT_BOOL { .. } => Type::Bool,
        MTree::FUNC_DECL { .. } | MTree::LET_STMT { .. } | MTree::ASSIGN { .. }
            | MTree::WHILE_STMT { .. } | MTree::IF_STMT { .. } => check_stmt_node(
            node,
            symbols,
            errors,
            sigs,
        ),
        MTree::EXPR { .. } | MTree::CALL { .. } => check_expr_node(node, symbols, errors, sigs),
    }
}

/// Check a declaration or statement node; see [`check_s`].
#[verifier::rlimit(100)]
fn check_stmt_node(
    node: &MTree,
    symbols: &mut SymbolTable,
    errors: &mut Vec<String>,
    sigs: &Vec<FnSig>,
) -> (t: Type)
    requires
        (*node) matches MTree::FUNC_DECL { .. } || (*node) matches MTree::LET_STMT { .. } || (
        *node) matches MTree::ASSIGN { .. } || (*node) matches MTree::WHILE_STMT { .. } || (
        *node) matches MTree::IF_STMT { .. },
    ensures
        ({
            let o = check_s(node@, old(symbols).model(), sigs_model(sigs@));
            final(symbols).model() == o.tm && strs_model(final(errors)@) == strs_model(
                old(errors)@,
            ) + o.errs && t == o.ty
        }),
    decreases *node, 0int, 0int
{
    let ghost tm0 = symbols.model();
    let ghost e0 = strs_model(errors@);
    let ghost sg = sigs_model(sigs@);
    match node {
        MTree::FUNC_DECL { name, params, ret_type, body } => {
            let mut local = seed_table(params);
            let bt = check_node(body, &mut local, errors, sigs);
            let hr = has_return_c(body);
            func_finish(name, *ret_type, bt, hr, errors);
            proof {
                let o = check_s(node@, tm0, sg);
                assert(strs_model(errors@) =~= e0 + o.errs);
            }
            Type::Unknown
        },
        MTree::LET_STMT { id, ty, expr } => {
            match expr {
                Some(e) => {
                    let et = check_node(e, symbols, errors, sigs);
                    let_finish(id, *ty, Some(et), symbols, errors);
                    proof {
                        let o = check_s(node@, tm0, sg);
                        assert(strs_model(errors@) =~= e0 + o.errs);
                    }
                },
                None => {
                    let_finish(id, *ty, None, symbols, errors);
                    proof {
                        let o = check_s(node@, tm0, sg);
                        assert(strs_model(errors@) =~= e0 + o.errs);
                    }
                },
            }
            Type::Unknown
        },
        MTree::ASSIGN { id, expr } => {
            match symbols.check(id.as_str()) {
                Ok(vt) => {
                    let et = check_node(expr, symbols, errors, sigs);
                    let ghost e1 = strs_model(errors@);
                    if vt != et && !matches!(et, Type::Unknown) && !matches!(vt, Type::Unknown) {
                        errors.push(m_assign_mismatch(id.as_str(), vt, et));
                        proof {
                            assert(strs_model(errors@) =~= e1.push(
                                msg_assign_mismatch(id@, vt, et),
                            ));
                        }
                    }
                },
                Err(m) => {
                    let ghost mm = m@;
                    errors.push(m);
                    proof {
                        assert(strs_model(errors@) =~= e0.push(mm));
                    }
                },
            }
            proof {
                let o = check_s(node@, tm0, sg);
                assert(strs_model(errors@) =~= e0 + o.errs);
            }
            Type::Unknown
        },
        MTree::WHILE_STMT { cond, body } => {
            let ct = check_node(cond, symbols, errors, sigs);
            let ghost e1 = strs_model(errors@);
            if !matches!(ct, Type::Bool) && !matches!(ct, Type::Unknown) {
                errors.push(m_cond("While condition must be Bool, found ", ct));
                proof {
                    assert(strs_model(errors@) =~= e1.push(msg_while_cond(ct)));
                }
            }
            check_node(body, symbols, errors, sigs);
            proof {
                let o = check_s(node@, tm0, sg);
                assert(strs_model(errors@) =~= e0 + o.errs);
            }
            Type::Unknown
        },
        MTree::IF_STMT { cond, then_block, else_block } => {
            let ct = check_node(cond, symbols, errors, sigs);
            let ghost e1 = strs_model(errors@);
            if !matches!(ct, Type::Bool) && !matches!(ct, Type::Unknown) {
                errors.push(m_cond("If condition must be Bool, found ", ct));
                proof {
                    assert(strs_model(errors@) =~= e1.push(msg_if_cond(ct)));
                }
            }
            let tt = check_node(then_block, symbols, errors, sigs);
            let et = match else_block {
                Some(b) => check_node(b, symbols, errors, sigs),
                None => Type::Unknown,
            };
            let ghost e2 = strs_model(errors@);
            if !matches!(tt, Type::Unknown) && !matches!(et, Type::Unknown) && tt != et {
                errors.push(m_branches(tt, et));
                proof {
                    assert(strs_model(errors@) =~= e2.push(msg_branches(tt, et)));
                }
            }
            proof {
                let o = check_s(node@, tm0, sg);
                assert(strs_model(errors@) =~= e0 + o.errs);
            }
            if !matches!(tt, Type::Unknown) {
                tt
            } else {
                et
            }
        },
        _ => Type::Unknown,
    }
}

/// Check an expression or call node; see [`check_s`].
#[verifier::rlimit(100)]
fn check_expr_node(
    node: &MTree,
    symbols: &mut SymbolTable,
    errors: &mut Vec<String>,
    sigs: &Vec<FnSig>,
) -> (t: Type)
    requires
        (*node) matches MTree::EXPR { .. } || (*node) matches MTree::CALL { .. },
    ensures
        ({
            let o = check_s(node@, old(symbols).model(), sigs_model(sigs@));
            final(symbols).model() == o.tm && strs_model(final(errors)@) == strs_model(
                old(errors)@,
            ) + o.errs && t == o.ty
        }),
    decreases *node, 0int, 0int
{
    let ghost tm0 = symbols.model();
    let ghost e0 = strs_model(errors@);
    let ghost sg = sigs_model(sigs@);
    match node {
        MTree::EXPR { left, op, right } => {
            let rt = check_node(right, symbols, errors, sigs);
            let ghost e1 = strs_model(errors@);
            if str_eq(op.as_str(), "!") {
                if !matches!(rt, Type::Bool) && !matches!(rt, Type::Unknown) {
                    errors.push(m_cond("Unary NOT requires Bool type, found ", rt));
                    proof {
                        assert(strs_model(errors@) =~= e1.push(msg_unary_not(rt)));
                    }
                }
                proof {
                    let o = check_s(node@, tm0, sg);
                    assert(strs_model(errors@) =~= e0 + o.errs);
                }
                Type::Bool
            } else if str_eq(op.as_str(), "unary-") {
                if !matches!(rt, Type::Int) && !matches!(rt, Type::Unknown) {
                    errors.push(m_cond("Unary minus requires Int type, found ", rt));
                    proof {
                        assert(strs_model(errors@) =~= e1.push(msg_unary_minus(rt)));
                    }
                }
                proof {
                    let o = check_s(node@, tm0, sg);
                    assert(strs_model(errors@) =~= e0 + o.errs);
                }
                Type::Int
            } else {
                let lt = check_node(left, symbols, errors, sigs);
                let t = binop_errors(op, lt, rt, errors);
                proof {
                    let o = check_s(node@, tm0, sg);
                    assert(strs_model(errors@) =~= e0 + o.errs);
                }
                t
            }
        },
        MTree::CALL { name, args } => {
            proof {
                lemma_asts_of(args@);
                assert(asts_of(args@).subrange(0, args@.len() as int) =~= asts_of(args@));
            }
            let tys = check_args(args, 0, symbols, errors, sigs);
            let t = call_errors(sigs, name, &tys, errors);
            proof {
                let o = check_s(node@, tm0, sg);
                assert(strs_model(errors@) =~= e0 + o.errs);
            }
            t
        },
        _ => Type::Unknown,
    }
}

/// Check the statements `v[i..]` in order; the result is the last
/// statement's type. See [`check_list_s`].
fn check_list(
    v: &Vec<MTree>,
    i: usize,
    symbols: &mut SymbolTable,
    errors: &mut Vec<String>,
    sigs: &Vec<FnSig>,
) -> (t: Type)
    requires
        i <= v@.len(),
    ensures
        ({
            let o = check_list_s(
                asts_of(v@).subrange(i as int, v@.len() as int),
                old(symbols).model(),
                sigs_model(sigs@),
            );
            final(symbols).model() == o.tm && strs_model(final(errors)@) == strs_model(
                old(errors)@,
            ) + o.errs && t == o.ty
        }),
    decreases v@, v@.len() - i, 2int
{
    proof {
        lemma_asts_of(v@);
    }
    let ghost suffix = asts_of(v@).subrange(i as int, v@.len() as int);
    let ghost e0 = strs_model(errors@);
    if i == v.len() {
        proof {
            assert(suffix =~= Seq::<Ast>::empty());
            assert(e0 + Seq::<Seq<char>>::empty() =~= e0);
        }
        return Type::Unknown;
    }
    proof {
        assert(suffix[0] == v@[i as int]@);
        assert(suffix.drop_first() =~= asts_of(v@).subrange(i + 1, v@.len() as int));
    }
    let t1 = check_node(&v[i], symbols, errors, sigs);
    let t2 = check_list(v, i + 1, symbols, errors, sigs);
    proof {
        let o = check_list_s(suffix, old(symbols).model(), sigs_model(sigs@));
        assert(strs_model(errors@) =~= e0 + o.errs);
    }
    if i + 1 == v.len() {
        t1
    } else {
        t2
    }
}

/// Check the arguments `v[i..]` in order, collecting their types. See
/// [`check_args_s`].
fn check_args(
    v: &Vec<MTree>,
    i: usize,
    symbols: &mut SymbolTable,
    errors: &mut Vec<String>,
    sigs: &Vec<FnSig>,
) -> (tys: Vec<Type>)
    requires
        i <= v@.len(),
    ensures
        ({
            let o = check_args_s(
                asts_of(v@).subrange(i as int, v@.len() as int),
                old(symbols).model(),
                sigs_model(sigs@),
            );
            final(symbols).model() == o.tm && strs_model(final(errors)@) == strs_model(
                old(errors)@,
            ) + o.errs && tys@ == o.tys
        }),
    decreases v@, v@.len() - i, 2int
{
    proof {
        lemma_asts_of(v@);
    }
    let ghost suffix = asts_of(v@).subrange(i as int, v@.len() as int);
    let ghost e0 = strs_model(errors@);
    if i == v.len() {
        proof {
            assert(suffix =~= Seq::<Ast>::empty());
            assert(e0 + Seq::<Seq<char>>::empty() =~= e0);
        }
        return Vec::new();
    }
    proof {
        assert(suffix[0] == v@[i as int]@);
        assert(suffix.drop_first() =~= asts_of(v@).subrange(i + 1, v@.len() as int));
    }
    let t1 = check_node(&v[i], symbols, errors, sigs);
    let mut rest = check_args(v, i + 1, symbols, errors, sigs);
    let ghost restm = rest@;
    rest.insert(0, t1);
    proof {
        assert(rest@ =~= seq![t1] + restm);
        let o = check_args_s(suffix, old(symbols).model(), sigs_model(sigs@));
        assert(strs_model(errors@) =~= e0 + o.errs);
    }
    rest
}

/// Run the checker on a tree: collect the program's function signatures,
/// then walk the whole tree accumulating every error. The result is the
/// inferred type when no error was found, else the complete error list, in
/// order. See [`analyze_s`].
pub fn analyze(tree: &MTree, symbols: &mut SymbolTable) -> (r: Result<Type, Vec<String>>)
    ensures
        ({
            let (tm, errs, ty) = analyze_s(tree@, old(symbols).model());
            final(symbols).model() == tm && (match r {
                Ok(t) => errs.len() == 0 && t == ty,
                Err(v) => errs.len() > 0 && strs_model(v@) == errs,
            })
        }),
{
    let mut errors: Vec<String> = Vec::new();
    let mut sigs: Vec<FnSig> = Vec::new();
    proof {
        assert(strs_model(errors@) =~= Seq::<Seq<char>>::empty());
        assert(sigs_model(sigs@) =~= Seq::<(Seq<char>, Seq<Type>, Type)>::empty());
    }
    if let MTree::START { funcs } = tree {
        proof {
            lemma_asts_of(funcs@);
            assert(asts_of(funcs@).subrange(0, funcs@.len() as int) =~= asts_of(funcs@));
        }
        build_sigs(funcs, 0, &mut sigs, &mut errors);
    }
    let ghost sig_errs = strs_model(errors@);
    let ty = check_node(tree, symbols, &mut errors, &sigs);
    proof {
        let (tm, errs, t2) = analyze_s(tree@, old(symbols).model());
        assert(strs_model(errors@) =~= errs);
    }
    if errors.len() == 0 {
        proof {
            let (tm, errs, t2) = analyze_s(tree@, old(symbols).model());
            assert(errs =~= strs_model(errors@));
        }
        Ok(ty)
    } else {
        Err(errors)
    }
}

} // verus!
