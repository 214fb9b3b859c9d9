use vstd::prelude::*;
use vstd::std_specs::cmp::PartialEqSpec;

verus! {

/// The kind of a token, with no payload. Two tokens compare equal exactly
/// when their kinds are equal; carried values (identifier names, literal
/// values) never take part in a comparison.
#[derive(Clone, Copy, Debug, PartialEq, Eq, Structural)]
pub enum TokenKind {
    // Brackets
    PARENS_L,
    PARENS_R,
    BRACKET_L,
    BRACKET_R,
    BRACE_L,
    BRACE_R,
    // Separators
    POINT,
    COMMA,
    COLON,
    SEMICOLON,
    ARROW_R,
    // Arithmetic operators
    ADD,
    SUB,
    MUL,
    DIV,
    // Relational operators
    EQ,
    LT,
    GT,
    NEQ,
    NLT,
    NGT,
    // Logical operators
    NOT,
    AND,
    OR,
    // Assignment
    ASSIGN,
    // Keywords
    FUNC,
    LET,
    IF,
    ELSE,
    WHILE,
    PRINT,
    RETURN,
    // Identifiers
    ID,
    // Basic types
    TYPE_INT32,
    TYPE_FLT32,
    TYPE_CHAR,
    TYPE_BOOL,
    // Literals
    LIT_INT32,
    LIT_FLT32,
    LIT_CHAR,
    LIT_BOOL,
    LIT_STRING,
    ERROR,
    // End of input
    EOI,
    // Grammar nonterminals, used only as syntax-tree node labels
    START,
    FUNC_DECL,
    PARAM_LIST,
    PARAM,
    BLOCK,
    IF_STMT,
    WHILE_STMT,
    LET_STMT,
    RTRN_STMT,
    EXPR,
}

/// A token of the source language. Atoms carry a payload: an identifier its
/// name, literals their value. A floating-point literal carries the literal's
/// source text; its numeric value plays no part in any later stage, which
/// either treats the token as an opaque atom or rejects it.
#[derive(Debug)]
pub enum Token {
    PARENS_L,
    PARENS_R,
    BRACKET_L,
    BRACKET_R,
    BRACE_L,
    BRACE_R,
    POINT,
    COMMA,
    COLON,
    SEMICOLON,
    ARROW_R,
    ADD,
    SUB,
    MUL,
    DIV,
    EQ,
    LT,
    GT,
    NEQ,
    NLT,
    NGT,
    NOT,
    AND,
    OR,
    ASSIGN,
    FUNC,
    LET,
    IF,
    ELSE,
    WHILE,
    PRINT,
    RETURN,
    ID { name: String },
    TYPE_INT32,
    TYPE_FLT32,
    TYPE_CHAR,
    TYPE_BOOL,
    LIT_INT32 { value: i32 },
    LIT_FLT32 { value: String },
    LIT_CHAR { value: char },
    LIT_BOOL { value: bool },
    LIT_STRING { value: String },
    ERROR,
    EOI,
    START,
    FUNC_DECL,
    PARAM_LIST,
    PARAM,
    BLOCK,
    IF_STMT,
    WHILE_STMT,
    LET_STMT,
    RTRN_STMT,
    EXPR,
}

/// The mathematical model of a token: its kind together with every payload a
/// token can carry, as plain mathematical values. Payload fields that a kind
/// does not use hold a fixed default.
pub ghost struct Tok {
    pub kind: TokenKind,
    /// Name carried by an `ID` token.
    pub name: Seq<char>,
    /// Value carried by a `LIT_INT32` token.
    pub ival: i32,
    /// Source text carried by a `LIT_FLT32` or `LIT_STRING` token.
    pub text: Seq<char>,
    /// Value carried by a `LIT_CHAR` token.
    pub cval: char,
    /// Value carried by a `LIT_BOOL` token.
    pub bval: bool,
}

/// The model of a payload-free token of the given kind.
pub open spec fn tok(kind: TokenKind) -> Tok {
    Tok { kind, name: Seq::empty(), ival: 0, text: Seq::empty(), cval: ' ', bval: false }
}

/// The model of an identifier token with the given name.
pub open spec fn tok_id(name: Seq<char>) -> Tok {
    Tok { kind: TokenKind::ID, name, ival: 0, text: Seq::empty(), cval: ' ', bval: false }
}

/// The model of an integer literal token.
pub open spec fn tok_int(value: i32) -> Tok {
    Tok { kind: TokenKind::LIT_INT32, name: Seq::empty(), ival: value, text: Seq::empty(), cval: ' ', bval: false }
}

/// The model of a floating-point literal token carrying its source text.
pub open spec fn tok_flt(text: Seq<char>) -> Tok {
    Tok { kind: TokenKind::LIT_FLT32, name: Seq::empty(), ival: 0, text, cval: ' ', bval: false }
}

/// The model of a character literal token.
pub open spec fn tok_char(value: char) -> Tok {
    Tok { kind: TokenKind::LIT_CHAR, name: Seq::empty(), ival: 0, text: Seq::empty(), cval: value, bval: false }
}

/// The model of a boolean literal token.
pub open spec fn tok_bool(value: bool) -> Tok {
    Tok { kind: TokenKind::LIT_BOOL, name: Seq::empty(), ival: 0, text: Seq::empty(), cval: ' ', bval: value }
}

/// The model of a string literal token.
pub open spec fn tok_string(text: Seq<char>) -> Tok {
    Tok { kind: TokenKind::LIT_STRING, name: Seq::empty(), ival: 0, text, cval: ' ', bval: false }
}

impl View for Token {
    type V = Tok;

    open spec fn view(&self) -> Tok {
        match self {
            Token::PARENS_L => tok(TokenKind::PARENS_L),
            Token::PARENS_R => tok(TokenKind::PARENS_R),
            Token::BRACKET_L => tok(TokenKind::BRACKET_L),
            Token::BRACKET_R => tok(TokenKind::BRACKET_R),
            Token::BRACE_L => tok(TokenKind::BRACE_L),
            Token::BRACE_R => tok(TokenKind::BRACE_R),
            Token::POINT => tok(TokenKind::POINT),
            Token::COMMA => tok(TokenKind::COMMA),
            Token::COLON => tok(TokenKind::COLON),
            Token::SEMICOLON => tok(TokenKind::SEMICOLON),
            Token::ARROW_R => tok(TokenKind::ARROW_R),
            Token::ADD => tok(TokenKind::ADD),
            Token::SUB => tok(TokenKind::SUB),
            Token::MUL => tok(TokenKind::MUL),
            Token::DIV => tok(TokenKind::DIV),
            Token::EQ => tok(TokenKind::EQ),
            Token::LT => tok(TokenKind::LT),
            Token::GT => tok(TokenKind::GT),
            Token::NEQ => tok(TokenKind::NEQ),
            Token::NLT => tok(TokenKind::NLT),
            Token::NGT => tok(TokenKind::NGT),
            Token::NOT => tok(TokenKind::NOT),
            Token::AND => tok(TokenKind::AND),
            Token::OR => tok(TokenKind::OR),
            Token::ASSIGN => tok(TokenKind::ASSIGN),
            Token::FUNC => tok(TokenKind::FUNC),
            Token::LET => tok(TokenKind::LET),
            Token::IF => tok(TokenKind::IF),
            Token::ELSE => tok(TokenKind::ELSE),
            Token::WHILE => tok(TokenKind::WHILE),
            Token::PRINT => tok(TokenKind::PRINT),
            Token::RETURN => tok(TokenKind::RETURN),
            Token::ID { name } => tok_id(name@),
            Token::TYPE_INT32 => tok(TokenKind::TYPE_INT32),
            Token::TYPE_FLT32 => tok(TokenKind::TYPE_FLT32),
            Token::TYPE_CHAR => tok(TokenKind::TYPE_CHAR),
            Token::TYPE_BOOL => tok(TokenKind::TYPE_BOOL),
            Token::LIT_INT32 { value } => tok_int(*value),
            Token::LIT_FLT32 { value } => tok_flt(value@),
            Token::LIT_CHAR { value } => tok_char(*value),
            Token::LIT_BOOL { value } => tok_bool(*value),
            Token::LIT_STRING { value } => tok_string(value@),
            Token::ERROR => tok(TokenKind::ERROR),
            Token::EOI => tok(TokenKind::EOI),
            Token::START => tok(TokenKind::START),
            Token::FUNC_DECL => tok(TokenKind::FUNC_DECL),
            Token::PARAM_LIST => tok(TokenKind::PARAM_LIST),
            Token::PARAM => tok(TokenKind::PARAM),
            Token::BLOCK => tok(TokenKind::BLOCK),
            Token::IF_STMT => tok(TokenKind::IF_STMT),
            Token::WHILE_STMT => tok(TokenKind::WHILE_STMT),
            Token::LET_STMT => tok(TokenKind::LET_STMT),
            Token::RTRN_STMT => tok(TokenKind::RTRN_STMT),
            Token::EXPR => tok(TokenKind::EXPR),
        }
    }
}

impl Token {
    /// The kind of this token.
    pub fn kind(&self) -> (k: TokenKind)
        ensures
            k == self@.kind,
    {
        match self {
            Token::PARENS_L => TokenKind::PARENS_L,
            Token::PARENS_R => TokenKind::PARENS_R,
            Token::BRACKET_L => TokenKind::BRACKET_L,
            Token::BRACKET_R => TokenKind::BRACKET_R,
            Token::BRACE_L => TokenKind::BRACE_L,
            Token::BRACE_R => TokenKind::BRACE_R,
            Token::POINT => TokenKind::POINT,
            Token::COMMA => TokenKind::COMMA,
            Token::COLON => TokenKind::COLON,
            Token::SEMICOLON => TokenKind::SEMICOLON,
            Token::ARROW_R => TokenKind::ARROW_R,
            Token::ADD => TokenKind::ADD,
            Token::SUB => TokenKind::SUB,
            Token::MUL => TokenKind::MUL,
            Token::DIV => TokenKind::DIV,
            Token::EQ => TokenKind::EQ,
            Token::LT => TokenKind::LT,
            Token::GT => TokenKind::GT,
            Token::NEQ => TokenKind::NEQ,
            Token::NLT => TokenKind::NLT,
            Token::NGT => TokenKind::NGT,
            Token::NOT => TokenKind::NOT,
            Token::AND => TokenKind::AND,
            Token::OR => TokenKind::OR,
            Token::ASSIGN => TokenKind::ASSIGN,
            Token::FUNC => TokenKind::FUNC,
            Token::LET => TokenKind::LET,
            Token::IF => TokenKind::IF,
            Token::ELSE => TokenKind::ELSE,
            Token::WHILE => TokenKind::WHILE,
            Token::PRINT => TokenKind::PRINT,
            Token::RETURN => TokenKind::RETURN,
            Token::ID { .. } => TokenKind::ID,
            Token::TYPE_INT32 => TokenKind::TYPE_INT32,
            Token::TYPE_FLT32 => TokenKind::TYPE_FLT32,
            Token::TYPE_CHAR => TokenKind::TYPE_CHAR,
            Token::TYPE_BOOL => TokenKind::TYPE_BOOL,
            Token::LIT_INT32 { .. } => TokenKind::LIT_INT32,
            Token::LIT_FLT32 { .. } => TokenKind::LIT_FLT32,
            Token::LIT_CHAR { .. } => TokenKind::LIT_CHAR,
            Token::LIT_BOOL { .. } => TokenKind::LIT_BOOL,
            Token::LIT_STRING { .. } => TokenKind::LIT_STRING,
            Token::ERROR => TokenKind::ERROR,
            Token::EOI => TokenKind::EOI,
            Token::START => TokenKind::START,
            Token::FUNC_DECL => TokenKind::FUNC_DECL,
            Token::PARAM_LIST => TokenKind::PARAM_LIST,
            Token::PARAM => TokenKind::PARAM,
            Token::BLOCK => TokenKind::BLOCK,
            Token::IF_STMT => TokenKind::IF_STMT,
            Token::WHILE_STMT => TokenKind::WHILE_STMT,
            Token::LET_STMT => TokenKind::LET_STMT,
            Token::RTRN_STMT => TokenKind::RTRN_STMT,
            Token::EXPR => TokenKind::EXPR,
        }
    }
}

impl Clone for Token {
    /// A clone of a token equals the token, payload included.
    fn clone(&self) -> (r: Token)
        ensures
            r == *self,
    {
        match self {
            Token::PARENS_L => Token::PARENS_L,
            Token::PARENS_R => Token::PARENS_R,
            Token::BRACKET_L => Token::BRACKET_L,
            Token::BRACKET_R => Token::BRACKET_R,
            Token::BRACE_L => Token::BRACE_L,
            Token::BRACE_R => Token::BRACE_R,
            Token::POINT => Token::POINT,
            Token::COMMA => Token::COMMA,
            Token::COLON => Token::COLON,
            Token::SEMICOLON => Token::SEMICOLON,
            Token::ARROW_R => Token::ARROW_R,
            Token::ADD => Token::ADD,
            Token::SUB => Token::SUB,
            Token::MUL => Token::MUL,
            Token::DIV => Token::DIV,
            Token::EQ => Token::EQ,
            Token::LT => Token::LT,
            Token::GT => Token::GT,
            Token::NEQ => Token::NEQ,
            Token::NLT => Token::NLT,
            Token::NGT => Token::NGT,
            Token::NOT => Token::NOT,
            Token::AND => Token::AND,
            Token::OR => Token::OR,
            Token::ASSIGN => Token::ASSIGN,
            Token::FUNC => Token::FUNC,
            Token::LET => Token::LET,
            Token::IF => Token::IF,
            Token::ELSE => Token::ELSE,
            Token::WHILE => Token::WHILE,
            Token::PRINT => Token::PRINT,
            Token::RETURN => Token::RETURN,
            Token::ID { name } => Token::ID { name: name.clone() },
            Token::TYPE_INT32 => Token::TYPE_INT32,
            Token::TYPE_FLT32 => Token::TYPE_FLT32,
            Token::TYPE_CHAR => Token::TYPE_CHAR,
            Token::TYPE_BOOL => Token::TYPE_BOOL,
            Token::LIT_INT32 { value } => Token::LIT_INT32 { value: *value },
            Token::LIT_FLT32 { value } => Token::LIT_FLT32 { value: value.clone() },
            Token::LIT_CHAR { value } => Token::LIT_CHAR { value: *value },
            Token::LIT_BOOL { value } => Token::LIT_BOOL { value: *value },
            Token::LIT_STRING { value } => Token::LIT_STRING { value: value.clone() },
            Token::ERROR => Token::ERROR,
            Token::EOI => Token::EOI,
            Token::START => Token::START,
            Token::FUNC_DECL => Token::FUNC_DECL,
            Token::PARAM_LIST => Token::PARAM_LIST,
            Token::PARAM => Token::PARAM,
            Token::BLOCK => Token::BLOCK,
            Token::IF_STMT => Token::IF_STMT,
            Token::WHILE_STMT => Token::WHILE_STMT,
            Token::LET_STMT => Token::LET_STMT,
            Token::RTRN_STMT => Token::RTRN_STMT,
            Token::EXPR => Token::EXPR,
        }
    }
}

impl PartialEq for Token {
    /// Two tokens are equal exactly when their kinds are equal.
    fn eq(&self, other: &Token) -> (r: bool) {
        self.kind() == other.kind()
    }
}

impl vstd::std_specs::cmp::PartialEqSpecImpl for Token {
    open spec fn obeys_eq_spec() -> bool {
        true
    }

    open spec fn eq_spec(&self, other: &Token) -> bool {
        self@.kind == other@.kind
    }
}

/// Token equality compares kind only: two tokens are equal exactly when
/// their kinds agree, whatever payloads they carry.
pub proof fn lemma_token_eq_compares_kind_only(a: Token, b: Token)
    ensures
        a.eq_spec(&b) <==> a@.kind == b@.kind,
{
}

/// Whether the kind is one of the type keywords.
pub open spec fn is_type_kind(k: TokenKind) -> bool {
    k == TokenKind::TYPE_INT32 || k == TokenKind::TYPE_FLT32 || k == TokenKind::TYPE_CHAR
        || k == TokenKind::TYPE_BOOL
}

impl Token {
    /// A prototype identifier token, used for kind comparisons.
    pub fn id() -> (r: Token)
        ensures
            r@ == tok_id(Seq::<char>::empty()),
    {
        Token::ID { name: String::new() }
    }

    /// A prototype integer literal token, used for kind comparisons.
    pub fn lit_i32() -> (r: Token)
        ensures
            r@ == tok_int(0),
    {
        Token::LIT_INT32 { value: 0 }
    }

    /// A prototype floating-point literal token, used for kind comparisons.
    pub fn lit_f32() -> (r: Token)
        ensures
            r@ == tok_flt(Seq::<char>::empty()),
    {
        Token::LIT_FLT32 { value: String::new() }
    }

    /// A prototype character literal token, used for kind comparisons.
    pub fn lit_char() -> (r: Token)
        ensures
            r@ == tok_char('\0'),
    {
        Token::LIT_CHAR { value: '\0' }
    }

    /// A prototype boolean literal token, used for kind comparisons.
    pub fn lit_bool() -> (r: Token)
        ensures
            r@ == tok_bool(false),
    {
        Token::LIT_BOOL { value: false }
    }

    /// A prototype string literal token, used for kind comparisons.
    pub fn lit_string() -> (r: Token)
        ensures
            r@ == tok_string(Seq::<char>::empty()),
    {
        Token::LIT_STRING { value: String::new() }
    }

    /// Whether this token is one of the type keywords.
    pub fn is_type(&self) -> (r: bool)
        ensures
            r == is_type_kind(self@.kind),
    {
        matches!(self.kind(),
            TokenKind::TYPE_INT32 | TokenKind::TYPE_FLT32 | TokenKind::TYPE_CHAR
            | TokenKind::TYPE_BOOL)
    }
}

/// Whether two string slices hold the same characters.
pub fn str_eq(a: &str, b: &str) -> (r: bool)
    ensures
        r == (a@ == b@),
{
    let sa = String::from_str(a);
    let sb = String::from_str(b);
    sa == sb
}

} // verus!
