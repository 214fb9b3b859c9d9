use vstd::prelude::*;
use crate::token::{Token, Tok, TokenKind, tok, is_type_kind};
use crate::mtree::{MTree, Tree};
use crate::lexer::{Lexer, toks_of, lex_all};

verus! {

/// Indentation step of the parse trace.
pub const INDENT: usize = 2;

/// A syntax error: the parse is fatal-on-error, so the first structural
/// mismatch aborts the whole run carrying the expected and actual token.
#[derive(Debug)]
pub enum ParseError {
    /// A token of the given kind was required but another token stood there.
    Expected { expected: TokenKind, actual: Token },
    /// A type keyword was required but another token stood there.
    ExpectedType { actual: Token },
}

/// The mathematical model of a syntax error.
pub ghost enum PErr {
    Expected { expected: TokenKind, actual: Tok },
    ExpectedType { actual: Tok },
}

impl View for ParseError {
    type V = PErr;

    open spec fn view(&self) -> PErr {
        match self {
            ParseError::Expected { expected, actual } => PErr::Expected {
                expected: *expected,
                actual: actual@,
            },
            ParseError::ExpectedType { actual } => PErr::ExpectedType { actual: actual@ },
        }
    }
}

/// The token at position `i` of the stream, or the end-of-input token past
/// its end.
pub open spec fn tok_at(toks: Seq<Tok>, i: int) -> Tok {
    if 0 <= i < toks.len() {
        toks[i]
    } else {
        tok(TokenKind::EOI)
    }
}

/// The position after consuming the token at `i`: the cursor never leaves
/// the stream.
pub open spec fn adv_at(toks: Seq<Tok>, i: int) -> int {
    if i < toks.len() {
        i + 1
    } else {
        i
    }
}

/// `j` clamped into `[lo, hi]`. The productions consume tokens moving only
/// forward, so at every use the clamp leaves `j` unchanged; it shapes the
/// recursion so that each production provably works on a shrinking rest of
/// the stream.
pub open spec fn next_pos(j: int, lo: int, hi: int) -> int {
    let m = if j < lo {
        lo
    } else {
        j
    };
    if m > hi {
        hi
    } else {
        m
    }
}

/// Whether the parse result `r`, ending at position `endpos`, is the one the
/// given production describes.
pub open spec fn agrees(s: Result<(Tree, int), PErr>, r: Result<MTree, ParseError>, endpos: int) -> bool {
    match r {
        Ok(t) => s matches Ok(p) && t@ == p.0 && endpos == p.1,
        Err(e) => s matches Err(pe) && e@ == pe,
    }
}

/// One parameter: a name, a colon, and a type keyword.
pub open spec fn parameter_spec(toks: Seq<Tok>, i: int) -> Result<(Tree, int), PErr> {
    let id = tok_at(toks, i);
    if id.kind != TokenKind::ID {
        Err(PErr::Expected { expected: TokenKind::ID, actual: id })
    } else if tok_at(toks, i + 1).kind != TokenKind::COLON {
        Err(PErr::Expected { expected: TokenKind::COLON, actual: tok_at(toks, i + 1) })
    } else {
        let ty = tok_at(toks, i + 2);
        if !is_type_kind(ty.kind) {
            Err(PErr::ExpectedType { actual: ty })
        } else {
            Ok((
                Tree {
                    tok: tok(TokenKind::PARAM),
                    children: seq![
                        Tree { tok: id, children: Seq::empty() },
                        Tree { tok: ty, children: Seq::empty() },
                    ],
                },
                i + 3,
            ))
        }
    }
}

/// The comma-led continuation of a parameter list.
pub open spec fn params_tail_spec(toks: Seq<Tok>, i: int) -> Result<(Seq<Tree>, int), PErr>
    decreases toks.len() - i when 0 <= i <= toks.len()
{
    if tok_at(toks, i).kind == TokenKind::COMMA {
        match parameter_spec(toks, i + 1) {
            Ok((p, j)) => match params_tail_spec(toks, next_pos(j, i + 1, toks.len() as int)) {
                Ok((rest, k)) => Ok((seq![p] + rest, k)),
                Err(e) => Err(e),
            },
            Err(e) => Err(e),
        }
    } else {
        Ok((Seq::empty(), i))
    }
}

/// Whether the parameters parsed so far compose with the continuation at `i`
/// to the whole comma-led tail from `i0`.
pub open spec fn params_rel(toks: Seq<Tok>, i0: int, done: Seq<Tree>, i: int) -> bool {
    match params_tail_spec(toks, i) {
        Ok(p) => params_tail_spec(toks, i0) == Ok::<(Seq<Tree>, int), PErr>((done + p.0, p.1)),
        Err(e) => params_tail_spec(toks, i0) == Err::<(Seq<Tree>, int), PErr>(e),
    }
}

/// A parenthesized, comma-separated, possibly empty parameter list.
pub open spec fn parameter_list_spec(toks: Seq<Tok>, i: int) -> Result<(Tree, int), PErr> {
    if tok_at(toks, i).kind != TokenKind::PARENS_L {
        Err(PErr::Expected { expected: TokenKind::PARENS_L, actual: tok_at(toks, i) })
    } else if tok_at(toks, i + 1).kind == TokenKind::PARENS_R {
        Ok((Tree { tok: tok(TokenKind::PARAM_LIST), children: Seq::empty() }, i + 2))
    } else {
        match parameter_spec(toks, i + 1) {
            Ok((p, j)) => match params_tail_spec(toks, j) {
                Ok((rest, k)) => {
                    if tok_at(toks, k).kind == TokenKind::PARENS_R {
                        Ok((
                            Tree { tok: tok(TokenKind::PARAM_LIST), children: seq![p] + rest },
                            k + 1,
                        ))
                    } else {
                        Err(PErr::Expected { expected: TokenKind::PARENS_R, actual: tok_at(toks, k) })
                    }
                },
                Err(e) => Err(e),
            },
            Err(e) => Err(e),
        }
    }
}

/// The statements of a block, up to but not including the closing brace.
pub open spec fn stmts_spec(toks: Seq<Tok>, i: int) -> Result<(Seq<Tree>, int), PErr>
    decreases toks.len() - i, 3int when 0 <= i <= toks.len()
{
    if tok_at(toks, i).kind == TokenKind::BRACE_R {
        Ok((Seq::empty(), i))
    } else if i >= toks.len() {
        // past the stream only the end-of-input token remains, which no
        // statement form accepts
        Err(PErr::Expected { expected: TokenKind::SEMICOLON, actual: tok(TokenKind::EOI) })
    } else {
        match statement_spec(toks, i) {
            Ok((s, j)) => match stmts_spec(toks, next_pos(j, i + 1, toks.len() as int)) {
                Ok((rest, k)) => Ok((seq![s] + rest, k)),
                Err(e) => Err(e),
            },
            Err(e) => Err(e),
        }
    }
}

/// Whether the statements parsed so far compose with the continuation at `i`
/// to the whole statement list from `i0`.
pub open spec fn stmts_rel(toks: Seq<Tok>, i0: int, done: Seq<Tree>, i: int) -> bool {
    match stmts_spec(toks, i) {
        Ok(p) => stmts_spec(toks, i0) == Ok::<(Seq<Tree>, int), PErr>((done + p.0, p.1)),
        Err(e) => stmts_spec(toks, i0) == Err::<(Seq<Tree>, int), PErr>(e),
    }
}

/// A braced block of statements.
pub open spec fn block_spec(toks: Seq<Tok>, i: int) -> Result<(Tree, int), PErr>
    decreases toks.len() - i, 1int when 0 <= i <= toks.len()
{
    if tok_at(toks, i).kind != TokenKind::BRACE_L {
        Err(PErr::Expected { expected: TokenKind::BRACE_L, actual: tok_at(toks, i) })
    } else {
        match stmts_spec(toks, i + 1) {
            Ok((ss, k)) => {
                if tok_at(toks, k).kind == TokenKind::BRACE_R {
                    Ok((Tree { tok: tok(TokenKind::BLOCK), children: ss }, k + 1))
                } else {
                    Err(PErr::Expected { expected: TokenKind::BRACE_R, actual: tok_at(toks, k) })
                }
            },
            Err(e) => Err(e),
        }
    }
}

/// The tail of a let statement after the name and optional type: an optional
/// initializer, then the semicolon.
pub open spec fn let_tail_spec(toks: Seq<Tok>, i: int, children: Seq<Tree>) -> Result<
    (Tree, int),
    PErr,
> {
    if tok_at(toks, i).kind == TokenKind::SEMICOLON {
        Ok((Tree { tok: tok(TokenKind::LET_STMT), children }, i + 1))
    } else if tok_at(toks, i).kind != TokenKind::ASSIGN {
        Err(PErr::Expected { expected: TokenKind::ASSIGN, actual: tok_at(toks, i) })
    } else {
        match crate::pratt_parser::expr_spec(toks, i + 1) {
            Ok((e, j)) => {
                if tok_at(toks, j).kind == TokenKind::SEMICOLON {
                    Ok((Tree { tok: tok(TokenKind::LET_STMT), children: children.push(e) }, j + 1))
                } else {
                    Err(PErr::Expected { expected: TokenKind::SEMICOLON, actual: tok_at(toks, j) })
                }
            },
            Err(e) => Err(e),
        }
    }
}

/// A let statement: the bound name, an optional declared type, an optional
/// initializer.
pub open spec fn let_spec(toks: Seq<Tok>, i: int) -> Result<(Tree, int), PErr> {
    if tok_at(toks, i).kind != TokenKind::LET {
        Err(PErr::Expected { expected: TokenKind::LET, actual: tok_at(toks, i) })
    } else {
        let id = tok_at(toks, i + 1);
        if id.kind != TokenKind::ID {
            Err(PErr::Expected { expected: TokenKind::ID, actual: id })
        } else {
            let idleaf = Tree { tok: id, children: Seq::<Tree>::empty() };
            if tok_at(toks, i + 2).kind == TokenKind::COLON {
                let ty = tok_at(toks, i + 3);
                if !is_type_kind(ty.kind) {
                    Err(PErr::ExpectedType { actual: ty })
                } else {
                    let_tail_spec(
                        toks,
                        i + 4,
                        seq![idleaf, Tree { tok: ty, children: Seq::<Tree>::empty() }],
                    )
                }
            } else {
                let_tail_spec(toks, i + 2, seq![idleaf])
            }
        }
    }
}

/// An if statement: a condition, a then-block, an optional else-block.
pub open spec fn if_spec(toks: Seq<Tok>, i: int) -> Result<(Tree, int), PErr>
    decreases toks.len() - i, 1int when 0 <= i <= toks.len()
{
    if tok_at(toks, i).kind != TokenKind::IF {
        Err(PErr::Expected { expected: TokenKind::IF, actual: tok_at(toks, i) })
    } else {
        match crate::pratt_parser::expr_spec(toks, i + 1) {
            Ok((cond, j)) => match block_spec(toks, next_pos(j, i + 1, toks.len() as int)) {
                Ok((thenb, k)) => {
                    if tok_at(toks, k).kind == TokenKind::ELSE {
                        match block_spec(toks, next_pos(k + 1, i + 1, toks.len() as int)) {
                            Ok((elseb, m)) => Ok((
                                Tree { tok: tok(TokenKind::IF_STMT), children: seq![cond, thenb, elseb] },
                                m,
                            )),
                            Err(e) => Err(e),
                        }
                    } else {
                        Ok((Tree { tok: tok(TokenKind::IF_STMT), children: seq![cond, thenb] }, k))
                    }
                },
                Err(e) => Err(e),
            },
            Err(e) => Err(e),
        }
    }
}

/// A while statement: a condition and a body block.
pub open spec fn while_spec(toks: Seq<Tok>, i: int) -> Result<(Tree, int), PErr>
    decreases toks.len() - i, 1int when 0 <= i <= toks.len()
{
    if tok_at(toks, i).kind != TokenKind::WHILE {
        Err(PErr::Expected { expected: TokenKind::WHILE, actual: tok_at(toks, i) })
    } else {
        match crate::pratt_parser::expr_spec(toks, i + 1) {
            Ok((cond, j)) => match block_spec(toks, next_pos(j, i + 1, toks.len() as int)) {
                Ok((body, k)) => Ok((
                    Tree { tok: tok(TokenKind::WHILE_STMT), children: seq![cond, body] },
                    k,
                )),
                Err(e) => Err(e),
            },
            Err(e) => Err(e),
        }
    }
}

/// A print statement: the keyword, an expression, a semicolon.
pub open spec fn print_spec(toks: Seq<Tok>, i: int) -> Result<(Tree, int), PErr> {
    if tok_at(toks, i).kind != TokenKind::PRINT {
        Err(PErr::Expected { expected: TokenKind::PRINT, actual: tok_at(toks, i) })
    } else {
        match crate::pratt_parser::expr_spec(toks, i + 1) {
            Ok((e, j)) => {
                if tok_at(toks, j).kind == TokenKind::SEMICOLON {
                    Ok((Tree { tok: tok(TokenKind::PRINT), children: seq![e] }, j + 1))
                } else {
                    Err(PErr::Expected { expected: TokenKind::SEMICOLON, actual: tok_at(toks, j) })
                }
            },
            Err(e) => Err(e),
        }
    }
}

/// A return statement: the keyword, an expression, a semicolon.
pub open spec fn return_spec(toks: Seq<Tok>, i: int) -> Result<(Tree, int), PErr> {
    if tok_at(toks, i).kind != TokenKind::RETURN {
        Err(PErr::Expected { expected: TokenKind::RETURN, actual: tok_at(toks, i) })
    } else {
        match crate::pratt_parser::expr_spec(toks, i + 1) {
            Ok((e, j)) => {
                if tok_at(toks, j).kind == TokenKind::SEMICOLON {
                    Ok((Tree { tok: tok(TokenKind::RTRN_STMT), children: seq![e] }, j + 1))
                } else {
                    Err(PErr::Expected { expected: TokenKind::SEMICOLON, actual: tok_at(toks, j) })
                }
            },
            Err(e) => Err(e),
        }
    }
}

/// One statement, dispatched on the current token; anything else is an
/// expression statement closed by a semicolon.
pub open spec fn statement_spec(toks: Seq<Tok>, i: int) -> Result<(Tree, int), PErr>
    decreases toks.len() - i, 2int when 0 <= i <= toks.len()
{
    let k = tok_at(toks, i).kind;
    if k == TokenKind::LET {
        let_spec(toks, i)
    } else if k == TokenKind::IF {
        if_spec(toks, i)
    } else if k == TokenKind::WHILE {
        while_spec(toks, i)
    } else if k == TokenKind::PRINT {
        print_spec(toks, i)
    } else if k == TokenKind::RETURN {
        return_spec(toks, i)
    } else if k == TokenKind::BRACE_L {
        block_spec(toks, i)
    } else {
        match crate::pratt_parser::expr_spec(toks, i) {
            Ok((e, j)) => {
                if tok_at(toks, j).kind == TokenKind::SEMICOLON {
                    Ok((e, j + 1))
                } else {
                    Err(PErr::Expected { expected: TokenKind::SEMICOLON, actual: tok_at(toks, j) })
                }
            },
            Err(e) => Err(e),
        }
    }
}

/// A function declaration: the keyword, a name, a parameter list, an
/// optional arrow and return type, and a body block.
pub open spec fn func_spec(toks: Seq<Tok>, i: int) -> Result<(Tree, int), PErr> {
    if tok_at(toks, i).kind != TokenKind::FUNC {
        Err(PErr::Expected { expected: TokenKind::FUNC, actual: tok_at(toks, i) })
    } else {
        let id = tok_at(toks, i + 1);
        if id.kind != TokenKind::ID {
            Err(PErr::Expected { expected: TokenKind::ID, actual: id })
        } else {
            let idleaf = Tree { tok: id, children: Seq::<Tree>::empty() };
            match parameter_list_spec(toks, i + 2) {
                Ok((plist, j)) => {
                    if tok_at(toks, j).kind == TokenKind::ARROW_R {
                        let ty = tok_at(toks, j + 1);
                        if !is_type_kind(ty.kind) {
                            Err(PErr::ExpectedType { actual: ty })
                        } else {
                            match block_spec(toks, j + 2) {
                                Ok((b, k)) => Ok((
                                    Tree {
                                        tok: tok(TokenKind::FUNC_DECL),
                                        children: seq![
                                            idleaf,
                                            plist,
                                            Tree { tok: ty, children: Seq::<Tree>::empty() },
                                            b,
                                        ],
                                    },
                                    k,
                                )),
                                Err(e) => Err(e),
                            }
                        }
                    } else {
                        match block_spec(toks, j) {
                            Ok((b, k)) => Ok((
                                Tree {
                                    tok: tok(TokenKind::FUNC_DECL),
                                    children: seq![idleaf, plist, b],
                                },
                                k,
                            )),
                            Err(e) => Err(e),
                        }
                    }
                },
                Err(e) => Err(e),
            }
        }
    }
}

/// The function declarations of a program, ended by the end-of-input token,
/// which is consumed.
pub open spec fn funcs_spec(toks: Seq<Tok>, i: int) -> Result<(Seq<Tree>, int), PErr>
    decreases toks.len() - i when 0 <= i <= toks.len()
{
    if tok_at(toks, i).kind == TokenKind::EOI {
        Ok((Seq::empty(), adv_at(toks, i)))
    } else {
        match func_spec(toks, i) {
            Ok((f, j)) => match funcs_spec(toks, next_pos(j, i + 1, toks.len() as int)) {
                Ok((rest, k)) => Ok((seq![f] + rest, k)),
                Err(e) => Err(e),
            },
            Err(e) => Err(e),
        }
    }
}

/// Whether the declarations parsed so far compose with the continuation at
/// `i` to the whole program from `i0`.
pub open spec fn funcs_rel(toks: Seq<Tok>, i0: int, done: Seq<Tree>, i: int) -> bool {
    match funcs_spec(toks, i) {
        Ok(p) => funcs_spec(toks, i0) == Ok::<(Seq<Tree>, int), PErr>((done + p.0, p.1)),
        Err(e) => funcs_spec(toks, i0) == Err::<(Seq<Tree>, int), PErr>(e),
    }
}

/// A whole program: function declarations under the start label.
pub open spec fn program_spec(toks: Seq<Tok>, i: int) -> Result<(Tree, int), PErr> {
    match funcs_spec(toks, i) {
        Ok((fs, k)) => Ok((Tree { tok: tok(TokenKind::START), children: fs }, k)),
        Err(e) => Err(e),
    }
}

/// A whole parser run: the program, then the end of the input.
pub open spec fn analyze_spec(toks: Seq<Tok>, i: int) -> Result<Tree, PErr> {
    match program_spec(toks, i) {
        Ok((t, j)) => {
            if tok_at(toks, j).kind == TokenKind::EOI {
                Ok(t)
            } else {
                Err(PErr::Expected { expected: TokenKind::EOI, actual: tok_at(toks, j) })
            }
        },
        Err(e) => Err(e),
    }
}

/// The recursive-descent parser over the token stream of a lexer run, with
/// the indentation counter of the parse trace.
pub struct Parser {
    pub tokens: Vec<Token>,
    pub position: usize,
    pub indent: usize,
}

impl Parser {
    /// The cursor is inside the token stream.
    pub open spec fn wf(self) -> bool {
        self.position <= self.tokens@.len()
    }

    /// The model of the token stream.
    pub open spec fn toks(self) -> Seq<Tok> {
        toks_of(self.tokens@)
    }

    /// A parser over all tokens that the lexer emits from its position.
    pub fn new(lexer: Lexer) -> (r: Parser)
        requires
            lexer.wf(),
        ensures
            r.wf(),
            r.position == 0,
            r.indent == 0,
            r.toks() == lex_all(lexer.input@, lexer.position as int),
    {
        let mut lx = lexer;
        let tokens = lx.tokens();
        Parser { tokens, position: 0, indent: 0 }
    }

    /// The current token, or the end-of-input token past the stream's end.
    pub fn curr(&mut self) -> (r: Token)
        ensures
            *final(self) == *old(self),
            r@ == tok_at(old(self).toks(), old(self).position as int),
    {
        if self.position < self.tokens.len() {
            self.tokens[self.position].clone()
        } else {
            Token::EOI
        }
    }

    /// Move to the next token; the cursor never leaves the stream.
    pub fn advance(&mut self)
        ensures
            final(self).tokens@ == old(self).tokens@,
            final(self).indent == old(self).indent,
            final(self).position as int == adv_at(old(self).toks(), old(self).position as int),
            old(self).wf() ==> final(self).wf(),
    {
        if self.position < self.tokens.len() {
            self.position = self.position + 1;
        }
    }

    /// Whether the current token has the kind of `symbol`, consuming
    /// nothing.
    pub fn peek(&mut self, symbol: Token) -> (r: bool)
        ensures
            *final(self) == *old(self),
            r == (tok_at(old(self).toks(), old(self).position as int).kind == symbol@.kind),
    {
        let c = self.curr();
        c == symbol
    }

    /// Consume the current token if its kind matches `symbol`, else fail
    /// with a syntax error naming the expected and the actual token.
    pub fn expect(&mut self, symbol: Token) -> (r: Result<(), ParseError>)
        ensures
            final(self).tokens@ == old(self).tokens@,
            final(self).indent == old(self).indent,
            old(self).wf() ==> final(self).wf(),
            ({
                let cur = tok_at(old(self).toks(), old(self).position as int);
                if cur.kind == symbol@.kind {
                    r matches Ok(_) && final(self).position as int == adv_at(
                        old(self).toks(),
                        old(self).position as int,
                    )
                } else {
                    (r matches Err(e) && e@ == (PErr::Expected {
                        expected: symbol@.kind,
                        actual: cur,
                    })) && final(self).position == old(self).position
                }
            }),
    {
        let c = self.curr();
        if c == symbol {
            self.advance();
            Ok(())
        } else {
            Err(ParseError::Expected { expected: symbol.kind(), actual: c })
        }
    }

    /// Consume the current token if it is a type keyword, else fail with a
    /// syntax error carrying the actual token.
    pub fn expect_type(&mut self) -> (r: Result<(), ParseError>)
        ensures
            final(self).tokens@ == old(self).tokens@,
            final(self).indent == old(self).indent,
            old(self).wf() ==> final(self).wf(),
            ({
                let cur = tok_at(old(self).toks(), old(self).position as int);
                if is_type_kind(cur.kind) {
                    r matches Ok(_) && final(self).position as int == adv_at(
                        old(self).toks(),
                        old(self).position as int,
                    )
                } else {
                    (r matches Err(e) && e@ == (PErr::ExpectedType { actual: cur }))
                        && final(self).position == old(self).position
                }
            }),
    {
        let c = self.curr();
        if c.is_type() {
            self.advance();
            Ok(())
        } else {
            Err(ParseError::ExpectedType { actual: c })
        }
    }

    /// Consume the current token and report success if its kind matches
    /// `symbol`; consume nothing otherwise.
    pub fn accept(&mut self, symbol: Token) -> (r: bool)
        ensures
            final(self).tokens@ == old(self).tokens@,
            final(self).indent == old(self).indent,
            old(self).wf() ==> final(self).wf(),
            ({
                let cur = tok_at(old(self).toks(), old(self).position as int);
                if cur.kind == symbol@.kind {
                    r && final(self).position as int == adv_at(
                        old(self).toks(),
                        old(self).position as int,
                    )
                } else {
                    !r && final(self).position == old(self).position
                }
            }),
    {
        let c = self.curr();
        if c == symbol {
            self.advance();
            true
        } else {
            false
        }
    }

    /// Widen the trace indentation by one step.
    pub fn indent_increment(&mut self)
        requires
            old(self).indent + INDENT <= usize::MAX,
        ensures
            final(self).indent == old(self).indent + INDENT,
            final(self).tokens@ == old(self).tokens@,
            final(self).position == old(self).position,
    {
        self.indent = self.indent + INDENT;
    }

    /// Narrow the trace indentation by one step.
    pub fn indent_decrement(&mut self)
        requires
            old(self).indent >= INDENT,
        ensures
            final(self).indent == old(self).indent - INDENT,
            final(self).tokens@ == old(self).tokens@,
            final(self).position == old(self).position,
    {
        self.indent = self.indent - INDENT;
    }

    /// Run the whole grammar: the program, then the end of the input.
    pub fn analyze(&mut self) -> (r: Result<MTree, ParseError>)
        requires
            old(self).wf(),
        ensures
            final(self).wf(),
            final(self).tokens@ == old(self).tokens@,
            ({
                let s = analyze_spec(old(self).toks(), old(self).position as int);
                match r {
                    Ok(t) => s matches Ok(tree) && t@ == tree,
                    Err(e) => s matches Err(pe) && e@ == pe,
                }
            }),
    {
        let tree = self.parse()?;
        self.expect(Token::EOI)?;
        Ok(tree)
    }

    /// Parse a whole program: function declarations up to the end of the
    /// input.
    #[verifier::rlimit(30)]
    pub fn parse(&mut self) -> (r: Result<MTree, ParseError>)
        requires
            old(self).wf(),
        ensures
            final(self).wf(),
            final(self).tokens@ == old(self).tokens@,
            old(self).position <= final(self).position,
            agrees(
                program_spec(old(self).toks(), old(self).position as int),
                r,
                final(self).position as int,
            ),
    {
        let ghost toks = self.toks();
        let ghost i0 = self.position as int;
        let mut tree = MTree::new(Token::START);
        proof {
            if let Ok(p) = funcs_spec(toks, i0) {
                assert(tree@.children + p.0 =~= p.0);
            }
        }
        loop
            invariant_except_break
                self.wf(),
                self.tokens@ == old(self).tokens@,
                toks == self.toks(),
                toks == old(self).toks(),
                i0 == old(self).position as int,
                i0 <= self.position as int,
                tree@.tok == tok(TokenKind::START),
                funcs_rel(toks, i0, tree@.children, self.position as int),
            ensures
                self.wf(),
                self.tokens@ == old(self).tokens@,
                i0 <= self.position as int,
                tree@.tok == tok(TokenKind::START),
                funcs_spec(toks, i0) matches Ok(p) && tree@.children == p.0
                    && self.position as int == p.1,
            decreases self.tokens@.len() - self.position,
        {
            let ghost at = self.position as int;
            let ghost done = tree@.children;
            if self.accept(Token::EOI) {
                proof {
                    assert(funcs_spec(toks, at) == Ok::<(Seq<Tree>, int), PErr>((
                        Seq::<Tree>::empty(),
                        adv_at(toks, at),
                    )));
                    assert(done + Seq::<Tree>::empty() =~= done);
                }
                break;
            }
            let f = self.parse_func()?;
            let ghost fm = f@;
            let ghost j = self.position as int;
            tree._push(f);
            proof {
                assert(next_pos(j, at + 1, toks.len() as int) == j);
                match funcs_spec(toks, j) {
                    Ok(p) => {
                        assert(funcs_spec(toks, at) == Ok::<(Seq<Tree>, int), PErr>((
                            seq![fm] + p.0,
                            p.1,
                        )));
                        assert(done + (seq![fm] + p.0) =~= done.push(fm) + p.0);
                    },
                    Err(e) => {},
                }
            }
        }
        Ok(tree)
    }

    /// Parse one function declaration.
    pub fn parse_func(&mut self) -> (r: Result<MTree, ParseError>)
        requires
            old(self).wf(),
        ensures
            final(self).wf(),
            final(self).tokens@ == old(self).tokens@,
            old(self).position <= final(self).position,
            r matches Ok(_) ==> old(self).position < final(self).position,
            agrees(
                func_spec(old(self).toks(), old(self).position as int),
                r,
                final(self).position as int,
            ),
    {
        let mut child = MTree::new(Token::FUNC_DECL);
        self.expect(Token::FUNC)?;
        let id = self.curr();
        self.expect(Token::id())?;
        child._push(MTree::new(id));
        let plist = self.parse_parameter_list()?;
        let ghost plm = plist@;
        child._push(plist);
        if self.accept(Token::ARROW_R) {
            let type_token = self.curr();
            self.expect_type()?;
            child._push(MTree::new(type_token));
            let b = self.parse_block_nest()?;
            let ghost bm = b@;
            child._push(b);
            proof {
                assert(child@.children =~= seq![
                    Tree { tok: id@, children: Seq::<Tree>::empty() },
                    plm,
                    Tree { tok: type_token@, children: Seq::<Tree>::empty() },
                    bm,
                ]);
            }
            Ok(child)
        } else {
            let b = self.parse_block_nest()?;
            let ghost bm = b@;
            child._push(b);
            proof {
                assert(child@.children =~= seq![
                    Tree { tok: id@, children: Seq::<Tree>::empty() },
                    plm,
                    bm,
                ]);
            }
            Ok(child)
        }
    }

    /// Parse a parenthesized, comma-separated, possibly empty parameter
    /// list.
    #[verifier::rlimit(30)]
    pub fn parse_parameter_list(&mut self) -> (r: Result<MTree, ParseError>)
        requires
            old(self).wf(),
        ensures
            final(self).wf(),
            final(self).tokens@ == old(self).tokens@,
            old(self).position <= final(self).position,
            r matches Ok(_) ==> old(self).position < final(self).position,
            agrees(
                parameter_list_spec(old(self).toks(), old(self).position as int),
                r,
                final(self).position as int,
            ),
    {
        let ghost toks = self.toks();
        let ghost i0 = self.position as int;
        let mut child = MTree::new(Token::PARAM_LIST);
        self.expect(Token::PARENS_L)?;
        if self.accept(Token::PARENS_R) {
            return Ok(child);
        }
        let first = self.parse_parameter()?;
        let ghost firstm = first@;
        child._push(first);
        let ghost pstart = self.position as int;
        let ghost mut done = Seq::<Tree>::empty();
        proof {
            if let Ok(p) = params_tail_spec(toks, pstart) {
                assert(done + p.0 =~= p.0);
            }
        }
        loop
            invariant_except_break
                self.wf(),
                self.tokens@ == old(self).tokens@,
                toks == self.toks(),
                toks == old(self).toks(),
                i0 == old(self).position as int,
                i0 + 1 <= pstart <= self.position as int,
                child@.tok == tok(TokenKind::PARAM_LIST),
                child@.children =~= seq![firstm] + done,
                params_rel(toks, pstart, done, self.position as int),
                parameter_list_spec(toks, i0) == (match params_tail_spec(toks, pstart) {
                    Ok(p) => (if tok_at(toks, p.1).kind == TokenKind::PARENS_R {
                        Ok::<(Tree, int), PErr>((
                            Tree { tok: tok(TokenKind::PARAM_LIST), children: seq![firstm] + p.0 },
                            p.1 + 1,
                        ))
                    } else {
                        Err::<(Tree, int), PErr>(PErr::Expected {
                            expected: TokenKind::PARENS_R,
                            actual: tok_at(toks, p.1),
                        })
                    }),
                    Err(e) => Err::<(Tree, int), PErr>(e),
                }),
            ensures
                self.wf(),
                self.tokens@ == old(self).tokens@,
                i0 + 1 <= self.position as int,
                child@.tok == tok(TokenKind::PARAM_LIST),
                child@.children =~= seq![firstm] + done,
                params_tail_spec(toks, pstart) matches Ok(p) && done == p.0
                    && self.position as int == p.1,
            decreases self.tokens@.len() - self.position,
        {
            let ghost at = self.position as int;
            let ghost done0 = done;
            if !self.accept(Token::COMMA) {
                proof {
                    assert(params_tail_spec(toks, at) == Ok::<(Seq<Tree>, int), PErr>((
                        Seq::<Tree>::empty(),
                        at,
                    )));
                    assert(done0 + Seq::<Tree>::empty() =~= done0);
                }
                break;
            }
            let p = self.parse_parameter()?;
            let ghost pm = p@;
            let ghost j = self.position as int;
            child._push(p);
            proof {
                done = done0.push(pm);
                assert(child@.children =~= seq![firstm] + done);
                assert(next_pos(j, at + 1, toks.len() as int) == j);
                match params_tail_spec(toks, j) {
                    Ok(q) => {
                        assert(params_tail_spec(toks, at) == Ok::<(Seq<Tree>, int), PErr>((
                            seq![pm] + q.0,
                            q.1,
                        )));
                        assert(done0 + (seq![pm] + q.0) =~= done + q.0);
                    },
                    Err(e) => {},
                }
            }
        }
        self.expect(Token::PARENS_R)?;
        proof {
            assert(child@.children =~= seq![firstm] + done);
        }
        Ok(child)
    }

    /// Parse one parameter: a name, a colon, and a type keyword.
    pub fn parse_parameter(&mut self) -> (r: Result<MTree, ParseError>)
        requires
            old(self).wf(),
        ensures
            final(self).wf(),
            final(self).tokens@ == old(self).tokens@,
            old(self).position <= final(self).position,
            r matches Ok(_) ==> old(self).position < final(self).position,
            agrees(
                parameter_spec(old(self).toks(), old(self).position as int),
                r,
                final(self).position as int,
            ),
    {
        let mut child = MTree::new(Token::PARAM);
        let id = self.curr();
        self.expect(Token::id())?;
        child._push(MTree::new(id));
        self.expect(Token::COLON)?;
        let type_token = self.curr();
        self.expect_type()?;
        child._push(MTree::new(type_token));
        proof {
            assert(child@.children =~= seq![
                Tree { tok: id@, children: Seq::<Tree>::empty() },
                Tree { tok: type_token@, children: Seq::<Tree>::empty() },
            ]);
        }
        Ok(child)
    }

    /// Parse a braced block of statements.
    #[verifier::rlimit(30)]
    pub fn parse_block_nest(&mut self) -> (r: Result<MTree, ParseError>)
        requires
            old(self).wf(),
        ensures
            final(self).wf(),
            final(self).tokens@ == old(self).tokens@,
            old(self).position <= final(self).position,
            r matches Ok(_) ==> old(self).position < final(self).position,
            agrees(
                block_spec(old(self).toks(), old(self).position as int),
                r,
                final(self).position as int,
            ),
        decreases old(self).tokens@.len() - old(self).position, 1int
    {
        let ghost toks = self.toks();
        let ghost i0 = self.position as int;
        let mut child = MTree::new(Token::BLOCK);
        self.expect(Token::BRACE_L)?;
        let ghost sstart = self.position as int;
        proof {
            if let Ok(p) = stmts_spec(toks, sstart) {
                assert(child@.children + p.0 =~= p.0);
            }
        }
        loop
            invariant_except_break
                self.wf(),
                self.tokens@ == old(self).tokens@,
                toks == self.toks(),
                toks == old(self).toks(),
                i0 == old(self).position as int,
                i0 + 1 <= sstart <= self.position as int,
                sstart == i0 + 1,
                child@.tok == tok(TokenKind::BLOCK),
                stmts_rel(toks, sstart, child@.children, self.position as int),
                block_spec(toks, i0) == (match stmts_spec(toks, sstart) {
                    Ok(p) => (if tok_at(toks, p.1).kind == TokenKind::BRACE_R {
                        Ok::<(Tree, int), PErr>((
                            Tree { tok: tok(TokenKind::BLOCK), children: p.0 },
                            p.1 + 1,
                        ))
                    } else {
                        Err::<(Tree, int), PErr>(PErr::Expected {
                            expected: TokenKind::BRACE_R,
                            actual: tok_at(toks, p.1),
                        })
                    }),
                    Err(e) => Err::<(Tree, int), PErr>(e),
                }),
            ensures
                self.wf(),
                self.tokens@ == old(self).tokens@,
                i0 + 1 <= self.position as int,
                child@.tok == tok(TokenKind::BLOCK),
                stmts_spec(toks, sstart) matches Ok(p) && child@.children == p.0
                    && self.position as int == p.1,
            decreases self.tokens@.len() - self.position,
        {
            let ghost at = self.position as int;
            let ghost done = child@.children;
            if self.peek(Token::BRACE_R) {
                proof {
                    assert(stmts_spec(toks, at) == Ok::<(Seq<Tree>, int), PErr>((
                        Seq::<Tree>::empty(),
                        at,
                    )));
                    assert(done + Seq::<Tree>::empty() =~= done);
                }
                break;
            }
            let s = self.parse_statement()?;
            let ghost sm = s@;
            let ghost j = self.position as int;
            child._push(s);
            proof {
                assert(next_pos(j, at + 1, toks.len() as int) == j);
                match stmts_spec(toks, j) {
                    Ok(p) => {
                        assert(stmts_spec(toks, at) == Ok::<(Seq<Tree>, int), PErr>((
                            seq![sm] + p.0,
                            p.1,
                        )));
                        assert(done + (seq![sm] + p.0) =~= done.push(sm) + p.0);
                    },
                    Err(e) => {},
                }
            }
        }
        self.expect(Token::BRACE_R)?;
        Ok(child)
    }

    /// Parse one statement, dispatching on the current token; anything else
    /// is an expression statement closed by a semicolon.
    pub fn parse_statement(&mut self) -> (r: Result<MTree, ParseError>)
        requires
            old(self).wf(),
        ensures
            final(self).wf(),
            final(self).tokens@ == old(self).tokens@,
            old(self).position <= final(self).position,
            r matches Ok(_) ==> old(self).position < final(self).position,
            agrees(
                statement_spec(old(self).toks(), old(self).position as int),
                r,
                final(self).position as int,
            ),
        decreases old(self).tokens@.len() - old(self).position, 2int
    {
        let c = self.curr();
        match c.kind() {
            TokenKind::LET => self.parse_let(),
            TokenKind::IF => self.parse_if(),
            TokenKind::WHILE => self.parse_while(),
            TokenKind::PRINT => self.parse_print(),
            TokenKind::RETURN => self.parse_return(),
            TokenKind::BRACE_L => self.parse_block_nest(),
            _ => {
                let e = self.parse_expr()?;
                self.expect(Token::SEMICOLON)?;
                Ok(e)
            },
        }
    }

    /// Parse a let statement: the bound name, an optional declared type, an
    /// optional initializer, and the closing semicolon.
    pub fn parse_let(&mut self) -> (r: Result<MTree, ParseError>)
        requires
            old(self).wf(),
        ensures
            final(self).wf(),
            final(self).tokens@ == old(self).tokens@,
            old(self).position <= final(self).position,
            r matches Ok(_) ==> old(self).position < final(self).position,
            agrees(
                let_spec(old(self).toks(), old(self).position as int),
                r,
                final(self).position as int,
            ),
    {
        let mut child = MTree::new(Token::LET_STMT);
        self.expect(Token::LET)?;
        let id = self.curr();
        self.expect(Token::id())?;
        child._push(MTree::new(id));
        if self.accept(Token::COLON) {
            let type_token = self.curr();
            self.expect_type()?;
            child._push(MTree::new(type_token));
            proof {
                assert(child@.children =~= seq![
                    Tree { tok: id@, children: Seq::<Tree>::empty() },
                    Tree { tok: type_token@, children: Seq::<Tree>::empty() },
                ]);
            }
        } else {
            proof {
                assert(child@.children =~= seq![Tree { tok: id@, children: Seq::<Tree>::empty() }]);
            }
        }
        let ghost before = child@.children;
        if !self.peek(Token::SEMICOLON) {
            self.expect(Token::ASSIGN)?;
            let e = self.parse_expr()?;
            let ghost em = e@;
            child._push(e);
            proof {
                assert(child@.children =~= before.push(em));
            }
        }
        self.expect(Token::SEMICOLON)?;
        Ok(child)
    }

    /// Parse an if statement: a condition, a then-block, an optional
    /// else-block.
    pub fn parse_if(&mut self) -> (r: Result<MTree, ParseError>)
        requires
            old(self).wf(),
        ensures
            final(self).wf(),
            final(self).tokens@ == old(self).tokens@,
            old(self).position <= final(self).position,
            r matches Ok(_) ==> old(self).position < final(self).position,
            agrees(
                if_spec(old(self).toks(), old(self).position as int),
                r,
                final(self).position as int,
            ),
        decreases old(self).tokens@.len() - old(self).position, 1int
    {
        let ghost toks = self.toks();
        let ghost i0 = self.position as int;
        let mut child = MTree::new(Token::IF_STMT);
        self.expect(Token::IF)?;
        let cond = self.parse_expr()?;
        let ghost condm = cond@;
        child._push(cond);
        proof {
            assert(next_pos(self.position as int, i0 + 1, toks.len() as int)
                == self.position as int);
        }
        let thenb = self.parse_block_nest()?;
        let ghost thenm = thenb@;
        child._push(thenb);
        if self.accept(Token::ELSE) {
            proof {
                assert(next_pos(self.position as int, i0 + 1, toks.len() as int)
                    == self.position as int);
            }
            let elseb = self.parse_block_nest()?;
            let ghost elsem = elseb@;
            child._push(elseb);
            proof {
                assert(child@.children =~= seq![condm, thenm, elsem]);
            }
            Ok(child)
        } else {
            proof {
                assert(child@.children =~= seq![condm, thenm]);
            }
            Ok(child)
        }
    }

    /// Parse a while statement: a condition and a body block.
    pub fn parse_while(&mut self) -> (r: Result<MTree, ParseError>)
        requires
            old(self).wf(),
        ensures
            final(self).wf(),
            final(self).tokens@ == old(self).tokens@,
            old(self).position <= final(self).position,
            r matches Ok(_) ==> old(self).position < final(self).position,
            agrees(
                while_spec(old(self).toks(), old(self).position as int),
                r,
                final(self).position as int,
            ),
        decreases old(self).tokens@.len() - old(self).position, 1int
    {
        let ghost toks = self.toks();
        let ghost i0 = self.position as int;
        let mut child = MTree::new(Token::WHILE_STMT);
        self.expect(Token::WHILE)?;
        let cond = self.parse_expr()?;
        let ghost condm = cond@;
        child._push(cond);
        proof {
            assert(next_pos(self.position as int, i0 + 1, toks.len() as int)
                == self.position as int);
        }
        let body = self.parse_block_nest()?;
        let ghost bodym = body@;
        child._push(body);
        proof {
            assert(child@.children =~= seq![condm, bodym]);
        }
        Ok(child)
    }

    /// Parse a print statement: the keyword, an expression, a semicolon.
    pub fn parse_print(&mut self) -> (r: Result<MTree, ParseError>)
        requires
            old(self).wf(),
        ensures
            final(self).wf(),
            final(self).tokens@ == old(self).tokens@,
            old(self).position <= final(self).position,
            r matches Ok(_) ==> old(self).position < final(self).position,
            agrees(
                print_spec(old(self).toks(), old(self).position as int),
                r,
                final(self).position as int,
            ),
    {
        let mut child = MTree::new(Token::PRINT);
        self.expect(Token::PRINT)?;
        let e = self.parse_expr()?;
        let ghost em = e@;
        child._push(e);
        self.expect(Token::SEMICOLON)?;
        proof {
            assert(child@.children =~= seq![em]);
        }
        Ok(child)
    }

    /// Parse a return statement: the keyword, an expression, a semicolon.
    pub fn parse_return(&mut self) -> (r: Result<MTree, ParseError>)
        requires
            old(self).wf(),
        ensures
            final(self).wf(),
            final(self).tokens@ == old(self).tokens@,
            old(self).position <= final(self).position,
            r matches Ok(_) ==> old(self).position < final(self).position,
            agrees(
                return_spec(old(self).toks(), old(self).position as int),
                r,
                final(self).position as int,
            ),
    {
        let mut child = MTree::new(Token::RTRN_STMT);
        self.expect(Token::RETURN)?;
        let e = self.parse_expr()?;
        let ghost em = e@;
        child._push(e);
        self.expect(Token::SEMICOLON)?;
        proof {
            assert(child@.children =~= seq![em]);
        }
        Ok(child)
    }
}

} // verus!
