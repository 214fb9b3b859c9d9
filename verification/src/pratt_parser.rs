use vstd::prelude::*;
use crate::token::{Token, Tok, TokenKind, tok};
use crate::mtree::{MTree, Tree};
use crate::parser::{Parser, ParseError, PErr, tok_at, next_pos, agrees};

verus! {

/// The binding powers of a token: `left` and `right` govern its infix
/// associativity, `unary` the power used when it acts as a prefix operator.
#[derive(Clone, Copy, Debug, PartialEq, Eq, Structural)]
pub struct BindingPower {
    pub left: isize,
    pub right: isize,
    pub unary: isize,
}

/// The binding-power table: the single source of truth for operator
/// precedence and associativity. Logical-or binds loosest, then logical-and;
/// the relational and equality tier is non-associative (the same power on
/// both sides); the additive tier binds tighter and the multiplicative tier
/// tighter still; prefix operators bind at 100, tighter than any infix tier.
/// Every other token has power 0, which always stops the climbing loop.
pub open spec fn bp_of(k: TokenKind) -> BindingPower {
    match k {
        TokenKind::ASSIGN => BindingPower { left: 5, right: 4, unary: 0 },
        TokenKind::OR => BindingPower { left: 10, right: 11, unary: 0 },
        TokenKind::AND => BindingPower { left: 11, right: 12, unary: 0 },
        TokenKind::NOT => BindingPower { left: 18, right: 19, unary: 100 },
        TokenKind::LT => BindingPower { left: 30, right: 30, unary: 0 },
        TokenKind::GT => BindingPower { left: 30, right: 30, unary: 0 },
        TokenKind::NLT => BindingPower { left: 30, right: 30, unary: 0 },
        TokenKind::NGT => BindingPower { left: 30, right: 30, unary: 0 },
        TokenKind::EQ => BindingPower { left: 30, right: 30, unary: 0 },
        TokenKind::NEQ => BindingPower { left: 30, right: 30, unary: 0 },
        TokenKind::ADD => BindingPower { left: 30, right: 31, unary: 0 },
        TokenKind::SUB => BindingPower { left: 30, right: 31, unary: 100 },
        TokenKind::MUL => BindingPower { left: 31, right: 32, unary: 0 },
        TokenKind::DIV => BindingPower { left: 31, right: 32, unary: 100 },
        _ => BindingPower { left: 0, right: 0, unary: 0 },
    }
}

/// Whether the kind may open an expression as a prefix operator.
pub open spec fn is_prefix_kind(k: TokenKind) -> bool {
    k == TokenKind::NOT || k == TokenKind::SUB || k == TokenKind::DIV
}

/// Whether the kind is a literal atom.
pub open spec fn is_value_atom_kind(k: TokenKind) -> bool {
    k == TokenKind::LIT_INT32 || k == TokenKind::LIT_FLT32 || k == TokenKind::LIT_CHAR
        || k == TokenKind::LIT_BOOL || k == TokenKind::LIT_STRING
}

impl Token {
    /// Whether this token may open an expression as a prefix operator.
    pub fn is_prefix_operator(&self) -> (r: bool)
        ensures
            r == is_prefix_kind(self@.kind),
    {
        matches!(self.kind(), TokenKind::NOT | TokenKind::SUB | TokenKind::DIV)
    }

    /// Whether this token is an identifier.
    pub fn is_id(&self) -> (r: bool)
        ensures
            r == (self@.kind == TokenKind::ID),
    {
        matches!(self.kind(), TokenKind::ID)
    }

    /// Whether this token is a literal atom.
    pub fn is_value_atom(&self) -> (r: bool)
        ensures
            r == is_value_atom_kind(self@.kind),
    {
        matches!(self.kind(),
            TokenKind::LIT_INT32 | TokenKind::LIT_FLT32 | TokenKind::LIT_CHAR
            | TokenKind::LIT_BOOL | TokenKind::LIT_STRING)
    }

    /// The binding powers of this token; see [`bp_of`].
    pub fn binding_power(&self) -> (r: BindingPower)
        ensures
            r == bp_of(self@.kind),
    {
        match self.kind() {
            TokenKind::ASSIGN => BindingPower { left: 5, right: 4, unary: 0 },
            TokenKind::OR => BindingPower { left: 10, right: 11, unary: 0 },
            TokenKind::AND => BindingPower { left: 11, right: 12, unary: 0 },
            TokenKind::NOT => BindingPower { left: 18, right: 19, unary: 100 },
            TokenKind::LT => BindingPower { left: 30, right: 30, unary: 0 },
            TokenKind::GT => BindingPower { left: 30, right: 30, unary: 0 },
            TokenKind::NLT => BindingPower { left: 30, right: 30, unary: 0 },
            TokenKind::NGT => BindingPower { left: 30, right: 30, unary: 0 },
            TokenKind::EQ => BindingPower { left: 30, right: 30, unary: 0 },
            TokenKind::NEQ => BindingPower { left: 30, right: 30, unary: 0 },
            TokenKind::ADD => BindingPower { left: 30, right: 31, unary: 0 },
            TokenKind::SUB => BindingPower { left: 30, right: 31, unary: 100 },
            TokenKind::MUL => BindingPower { left: 31, right: 32, unary: 0 },
            TokenKind::DIV => BindingPower { left: 31, right: 32, unary: 100 },
            _ => BindingPower { left: 0, right: 0, unary: 0 },
        }
    }
}

/// A leaf of the model tree.
pub open spec fn leaf(t: Tok) -> Tree {
    Tree { tok: t, children: Seq::empty() }
}

/// The precedence-climbing loop: while the coming token binds at least as
/// tightly on its left as `rbl`, consume it as an infix operator, parse its
/// right operand at the operator's right power, and fold both operands into
/// a two-child node. The end-of-input token never binds.
pub open spec fn expr_infix_spec(toks: Seq<Tok>, i: int, left: Tree, rbl: int) -> Result<
    (Tree, int),
    PErr,
>
    decreases toks.len() - i, 1int when 0 <= i <= toks.len()
{
    let op = tok_at(toks, i);
    if rbl > bp_of(op.kind).left as int || op.kind == TokenKind::EOI {
        Ok((left, i))
    } else {
        match expr_tok_spec(toks, i + 1, bp_of(op.kind).right as int) {
            Ok((right, j)) => expr_infix_spec(
                toks,
                next_pos(j, i + 1, toks.len() as int),
                Tree { tok: op, children: seq![left, right] },
                rbl,
            ),
            Err(e) => Err(e),
        }
    }
}

/// A prefix operator (known to stand at `i`) applied to the operand parsed
/// at the operator's unary power.
pub open spec fn expr_prefix_spec(toks: Seq<Tok>, i: int) -> Result<(Tree, int), PErr>
    decreases toks.len() - i, 3int when 0 <= i < toks.len()
{
    let op = tok_at(toks, i);
    match expr_tok_spec(toks, i + 1, bp_of(op.kind).unary as int) {
        Ok((operand, j)) => Ok((Tree { tok: op, children: seq![operand] }, j)),
        Err(e) => Err(e),
    }
}

/// A parenthesized sub-expression, the opening parenthesis known to stand at
/// `i`: the parentheses leave no node of their own.
pub open spec fn expr_parentheses_spec(toks: Seq<Tok>, i: int) -> Result<(Tree, int), PErr>
    decreases toks.len() - i, 3int when 0 <= i < toks.len()
{
    match expr_spec(toks, i + 1) {
        Ok((inner, j)) => {
            if tok_at(toks, j).kind == TokenKind::PARENS_R {
                Ok((inner, j + 1))
            } else {
                Err(PErr::Expected { expected: TokenKind::PARENS_R, actual: tok_at(toks, j) })
            }
        },
        Err(e) => Err(e),
    }
}

/// The comma-led continuation of an argument list.
pub open spec fn args_tail_spec(toks: Seq<Tok>, i: int) -> Result<(Seq<Tree>, int), PErr>
    decreases toks.len() - i, 6int when 0 <= i <= toks.len()
{
    if tok_at(toks, i).kind == TokenKind::COMMA {
        match expr_spec(toks, i + 1) {
            Ok((e, j)) => match args_tail_spec(toks, next_pos(j, i + 1, toks.len() as int)) {
                Ok((rest, k)) => Ok((seq![e] + rest, k)),
                Err(err) => Err(err),
            },
            Err(e) => Err(e),
        }
    } else {
        Ok((Seq::empty(), i))
    }
}

/// Whether the arguments parsed so far compose with the continuation at `i`
/// to the whole comma-led tail from `t0`.
pub open spec fn args_rel(toks: Seq<Tok>, t0: int, done: Seq<Tree>, i: int) -> bool {
    match args_tail_spec(toks, i) {
        Ok(p) => args_tail_spec(toks, t0) == Ok::<(Seq<Tree>, int), PErr>((done + p.0, p.1)),
        Err(e) => args_tail_spec(toks, t0) == Err::<(Seq<Tree>, int), PErr>(e),
    }
}

/// The comma-separated arguments of a call.
pub open spec fn call_args_spec(toks: Seq<Tok>, i: int) -> Result<(Seq<Tree>, int), PErr>
    decreases toks.len() - i, 7int when 0 <= i <= toks.len()
{
    match expr_spec(toks, i) {
        Ok((e, j)) => match args_tail_spec(toks, next_pos(j, i, toks.len() as int)) {
            Ok((rest, k)) => Ok((seq![e] + rest, k)),
            Err(err) => Err(err),
        },
        Err(e) => Err(e),
    }
}

/// A call of `atom`, whose opening parenthesis is known to stand at `i`: the
/// atom becomes the node label and the arguments its children.
pub open spec fn expr_call_spec(toks: Seq<Tok>, atom: Tok, i: int) -> Result<(Tree, int), PErr>
    decreases toks.len() - i, 3int when 0 <= i < toks.len()
{
    if tok_at(toks, i + 1).kind == TokenKind::PARENS_R {
        Ok((leaf(atom), i + 2))
    } else {
        match call_args_spec(toks, i + 1) {
            Ok((args, k)) => {
                if tok_at(toks, k).kind == TokenKind::PARENS_R {
                    Ok((Tree { tok: atom, children: args }, k + 1))
                } else {
                    Err(PErr::Expected { expected: TokenKind::PARENS_R, actual: tok_at(toks, k) })
                }
            },
            Err(e) => Err(e),
        }
    }
}

/// An atom (an identifier or literal, known to stand at `i`), reinterpreted
/// as a call when an opening parenthesis follows immediately.
pub open spec fn expr_atom_spec(toks: Seq<Tok>, i: int) -> Result<(Tree, int), PErr>
    decreases toks.len() - i, 3int when 0 <= i < toks.len()
{
    let atom = tok_at(toks, i);
    if tok_at(toks, i + 1).kind == TokenKind::PARENS_L {
        expr_call_spec(toks, atom, i + 1)
    } else {
        Ok((leaf(atom), i + 1))
    }
}

/// One operand followed by the climbing loop at `rbl`. A token that cannot
/// open an expression yields a bare error node and consumes nothing.
pub open spec fn expr_tok_spec(toks: Seq<Tok>, i: int, rbl: int) -> Result<(Tree, int), PErr>
    decreases toks.len() - i, 4int when 0 <= i <= toks.len()
{
    let t = tok_at(toks, i);
    if is_prefix_kind(t.kind) {
        match expr_prefix_spec(toks, i) {
            Ok((l, j)) => expr_infix_spec(toks, next_pos(j, i + 1, toks.len() as int), l, rbl),
            Err(e) => Err(e),
        }
    } else if t.kind == TokenKind::PARENS_L {
        match expr_parentheses_spec(toks, i) {
            Ok((l, j)) => expr_infix_spec(toks, next_pos(j, i + 1, toks.len() as int), l, rbl),
            Err(e) => Err(e),
        }
    } else if t.kind == TokenKind::ID || is_value_atom_kind(t.kind) {
        match expr_atom_spec(toks, i) {
            Ok((l, j)) => expr_infix_spec(toks, next_pos(j, i + 1, toks.len() as int), l, rbl),
            Err(e) => Err(e),
        }
    } else {
        Ok((leaf(tok(TokenKind::ERROR)), i))
    }
}

/// A whole expression: one operand and the climbing loop, with the minimum
/// binding power reset to 1.
pub open spec fn expr_spec(toks: Seq<Tok>, i: int) -> Result<(Tree, int), PErr>
    decreases toks.len() - i, 5int when 0 <= i <= toks.len()
{
    expr_tok_spec(toks, i, 1)
}

impl Parser {
    /// Parse a whole expression with the minimum binding power reset to 1.
    pub fn parse_expr(&mut self) -> (r: Result<MTree, ParseError>)
        requires
            old(self).wf(),
        ensures
            final(self).wf(),
            final(self).tokens@ == old(self).tokens@,
            old(self).position <= final(self).position,
            agrees(
                expr_spec(old(self).toks(), old(self).position as int),
                r,
                final(self).position as int,
            ),
        decreases old(self).tokens@.len() - old(self).position, 5int
    {
        self.parse_expr_tok(1)
    }

    /// Parse one operand, then climb while the coming operators bind at
    /// least as tightly as `rbl`.
    pub fn parse_expr_tok(&mut self, rbl: isize) -> (r: Result<MTree, ParseError>)
        requires
            old(self).wf(),
        ensures
            final(self).wf(),
            final(self).tokens@ == old(self).tokens@,
            old(self).position <= final(self).position,
            agrees(
                expr_tok_spec(old(self).toks(), old(self).position as int, rbl as int),
                r,
                final(self).position as int,
            ),
        decreases old(self).tokens@.len() - old(self).position, 4int
    {
        let ghost toks = self.toks();
        let ghost i0 = self.position as int;
        let token = self.curr();
        if token.is_prefix_operator() {
            let tree_prefix = self.parse_expr_prefix()?;
            proof {
                assert(next_pos(self.position as int, i0 + 1, toks.len() as int)
                    == self.position as int);
            }
            self.parse_expr_infix(tree_prefix, rbl)
        } else if token.kind() == TokenKind::PARENS_L {
            let tree_parens = self.parse_expr_parentheses()?;
            proof {
                assert(next_pos(self.position as int, i0 + 1, toks.len() as int)
                    == self.position as int);
            }
            self.parse_expr_infix(tree_parens, rbl)
        } else if token.is_id() || token.is_value_atom() {
            let tree_atom = self.parse_expr_atom()?;
            proof {
                assert(next_pos(self.position as int, i0 + 1, toks.len() as int)
                    == self.position as int);
            }
            self.parse_expr_infix(tree_atom, rbl)
        } else {
            Ok(MTree::new(Token::ERROR))
        }
    }

    /// Parse a prefix operator and its operand at the operator's unary
    /// power.
    pub fn parse_expr_prefix(&mut self) -> (r: Result<MTree, ParseError>)
        requires
            old(self).wf(),
            is_prefix_kind(tok_at(old(self).toks(), old(self).position as int).kind),
        ensures
            final(self).wf(),
            final(self).tokens@ == old(self).tokens@,
            old(self).position <= final(self).position,
            r matches Ok(_) ==> old(self).position < final(self).position,
            agrees(
                expr_prefix_spec(old(self).toks(), old(self).position as int),
                r,
                final(self).position as int,
            ),
        decreases old(self).tokens@.len() - old(self).position, 3int
    {
        let token = self.curr();
        self.advance();
        let bp = token.binding_power();
        let tree = self.parse_expr_tok(bp.unary)?;
        let ghost treem = tree@;
        let mut node = MTree::new(token);
        node._push(tree);
        proof {
            assert(node@.children =~= seq![treem]);
        }
        Ok(node)
    }

    /// Parse a parenthesized sub-expression; the parentheses leave no node.
    pub fn parse_expr_parentheses(&mut self) -> (r: Result<MTree, ParseError>)
        requires
            old(self).wf(),
            tok_at(old(self).toks(), old(self).position as int).kind == TokenKind::PARENS_L,
        ensures
            final(self).wf(),
            final(self).tokens@ == old(self).tokens@,
            old(self).position <= final(self).position,
            r matches Ok(_) ==> old(self).position < final(self).position,
            agrees(
                expr_parentheses_spec(old(self).toks(), old(self).position as int),
                r,
                final(self).position as int,
            ),
        decreases old(self).tokens@.len() - old(self).position, 3int
    {
        self.expect(Token::PARENS_L)?;
        let tree = self.parse_expr()?;
        self.expect(Token::PARENS_R)?;
        Ok(tree)
    }

    /// Parse an atom, reinterpreting it as a call when an opening
    /// parenthesis follows immediately.
    pub fn parse_expr_atom(&mut self) -> (r: Result<MTree, ParseError>)
        requires
            old(self).wf(),
            tok_at(old(self).toks(), old(self).position as int).kind == TokenKind::ID
                || is_value_atom_kind(tok_at(old(self).toks(), old(self).position as int).kind),
        ensures
            final(self).wf(),
            final(self).tokens@ == old(self).tokens@,
            old(self).position <= final(self).position,
            r matches Ok(_) ==> old(self).position < final(self).position,
            agrees(
                expr_atom_spec(old(self).toks(), old(self).position as int),
                r,
                final(self).position as int,
            ),
        decreases old(self).tokens@.len() - old(self).position, 3int
    {
        let atom = self.curr();
        self.advance();
        if self.peek(Token::PARENS_L) {
            self.parse_expr_call(atom)
        } else {
            Ok(MTree::new(atom))
        }
    }

    /// Parse the parenthesized argument list of a call of `token`, whose
    /// opening parenthesis is the current token.
    #[verifier::rlimit(30)]
    pub fn parse_expr_call(&mut self, token: Token) -> (r: Result<MTree, ParseError>)
        requires
            old(self).wf(),
            tok_at(old(self).toks(), old(self).position as int).kind == TokenKind::PARENS_L,
        ensures
            final(self).wf(),
            final(self).tokens@ == old(self).tokens@,
            old(self).position <= final(self).position,
            r matches Ok(_) ==> old(self).position < final(self).position,
            agrees(
                expr_call_spec(old(self).toks(), token@, old(self).position as int),
                r,
                final(self).position as int,
            ),
        decreases old(self).tokens@.len() - old(self).position, 3int
    {
        let ghost toks = self.toks();
        let ghost i0 = self.position as int;
        let ghost tokm = token@;
        let mut tree = MTree::new(token);
        self.expect(Token::PARENS_L)?;
        if self.peek(Token::PARENS_R) {
            self.expect(Token::PARENS_R)?;
            return Ok(tree);
        }
        let ghost astart = self.position as int;
        let first = self.parse_expr()?;
        let ghost firstm = first@;
        tree._push(first);
        let ghost tstart = self.position as int;
        proof {
            assert(next_pos(tstart, astart, toks.len() as int) == tstart);
            if let Ok(p) = args_tail_spec(toks, tstart) {
                assert(Seq::<Tree>::empty() + p.0 =~= p.0);
            }
        }
        let ghost mut done = Seq::<Tree>::empty();
        loop
            invariant_except_break
                self.wf(),
                self.tokens@ == old(self).tokens@,
                toks == self.toks(),
                toks == old(self).toks(),
                i0 == old(self).position as int,
                tokm == token@,
                i0 + 1 <= tstart <= self.position as int,
                tree@.tok == tokm,
                tree@.children =~= seq![firstm] + done,
                args_rel(toks, tstart, done, self.position as int),
                expr_call_spec(toks, tokm, i0) == (match args_tail_spec(toks, tstart) {
                    Ok(p) => (if tok_at(toks, p.1).kind == TokenKind::PARENS_R {
                        Ok::<(Tree, int), PErr>((
                            Tree { tok: tokm, children: seq![firstm] + p.0 },
                            p.1 + 1,
                        ))
                    } else {
                        Err::<(Tree, int), PErr>(PErr::Expected {
                            expected: TokenKind::PARENS_R,
                            actual: tok_at(toks, p.1),
                        })
                    }),
                    Err(e) => Err::<(Tree, int), PErr>(e),
                }),
            ensures
                self.wf(),
                self.tokens@ == old(self).tokens@,
                i0 + 1 <= self.position as int,
                tree@.tok == tokm,
                args_tail_spec(toks, tstart) matches Ok(p) && tree@.children == seq![firstm] + p.0
                    && self.position as int == p.1,
            decreases self.tokens@.len() - self.position,
        {
            let ghost at = self.position as int;
            let ghost done0 = done;
            if !self.accept(Token::COMMA) {
                proof {
                    assert(args_tail_spec(toks, at) == Ok::<(Seq<Tree>, int), PErr>((
                        Seq::<Tree>::empty(),
                        at,
                    )));
                    assert(done0 + Seq::<Tree>::empty() =~= done0);
                }
                break;
            }
            let e = self.parse_expr()?;
            let ghost em = e@;
            let ghost j = self.position as int;
            tree._push(e);
            proof {
                done = done0.push(em);
                assert(tree@.children =~= seq![firstm] + done);
                assert(next_pos(j, at + 1, toks.len() as int) == j);
                match args_tail_spec(toks, j) {
                    Ok(q) => {
                        assert(args_tail_spec(toks, at) == Ok::<(Seq<Tree>, int), PErr>((
                            seq![em] + q.0,
                            q.1,
                        )));
                        assert(done0 + (seq![em] + q.0) =~= done + q.0);
                    },
                    Err(e2) => {},
                }
            }
        }
        self.expect(Token::PARENS_R)?;
        Ok(tree)
    }

    /// One step of the precedence-climbing loop over `left`; see
    /// [`expr_infix_spec`].
    pub fn parse_expr_infix(&mut self, left: MTree, rbl: isize) -> (r: Result<MTree, ParseError>)
        requires
            old(self).wf(),
        ensures
            final(self).wf(),
            final(self).tokens@ == old(self).tokens@,
            old(self).position <= final(self).position,
            agrees(
                expr_infix_spec(old(self).toks(), old(self).position as int, left@, rbl as int),
                r,
                final(self).position as int,
            ),
        decreases old(self).tokens@.len() - old(self).position, 1int
    {
        let ghost toks = self.toks();
        let ghost i0 = self.position as int;
        let op_infix = self.curr();
        let bp = op_infix.binding_power();
        if rbl > bp.left || op_infix.kind() == TokenKind::EOI {
            return Ok(left);
        }
        self.advance();
        let right = self.parse_expr_tok(bp.right)?;
        let ghost lm = left@;
        let ghost rm = right@;
        let ghost j = self.position as int;
        let mut folded = MTree::new(op_infix);
        folded._push(left);
        folded._push(right);
        proof {
            assert(folded@.children =~= seq![lm, rm]);
            assert(next_pos(j, i0 + 1, toks.len() as int) == j);
        }
        self.parse_expr_infix(folded, rbl)
    }
}

} // verus!
