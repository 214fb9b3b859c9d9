use vstd::prelude::*;
use crate::token::{Token, Tok, TokenKind, tok, tok_id, tok_int, tok_flt, tok_char, tok_bool, tok_string};

verus! {

/// States of the scanning finite-state machine: the rest state, the end of
/// input, one state per partial token being accumulated (identifier or
/// keyword characters, a character or string literal, the digits of a
/// number, a speculative decimal point, the decimals of a float), and one
/// state per multi-character operator prefix, plus the comment-skipping
/// state.
#[derive(Clone, Copy, Debug, PartialEq, Eq, Structural)]
pub enum LexerState {
    Start,
    End,
    Chars,
    ReadChar,
    ReadString,
    Numbers,
    NumPoint,
    Decimals,
    Not,
    And,
    Or,
    Dash,
    Slash,
    Comment,
    Equal,
    Greater,
    Less,
}

/// Whether `c` is an ASCII letter.
pub open spec fn is_letter(c: char) -> bool {
    ('A' as u32 <= c as u32 && c as u32 <= 'Z' as u32)
        || ('a' as u32 <= c as u32 && c as u32 <= 'z' as u32)
}

/// Whether `c` may start an identifier.
pub open spec fn is_ident_start(c: char) -> bool {
    is_letter(c) || c == '_'
}

/// Whether `c` may continue an identifier.
pub open spec fn is_ident_char(c: char) -> bool {
    is_ident_start(c) || is_digit(c) || c == '-'
}

/// Whether `c` is a decimal digit.
pub open spec fn is_digit(c: char) -> bool {
    '0' as u32 <= c as u32 && c as u32 <= '9' as u32
}

/// The numeric value of a decimal digit.
pub open spec fn digit_val(c: char) -> int {
    c as u32 - '0' as u32
}

/// Whether every character of `s` is a decimal digit.
pub open spec fn all_digits(s: Seq<char>) -> bool {
    forall|i: int| 0 <= i < s.len() ==> is_digit(#[trigger] s[i])
}

/// The value of `s` read as a decimal numeral.
pub open spec fn digits_val(s: Seq<char>) -> int
    decreases s,
{
    if s.len() == 0 {
        0
    } else {
        digits_val(s.drop_last()) * 10 + digit_val(s.last())
    }
}

/// A numeral of digits is nonnegative, and extending a numeral on the right
/// never decreases its value.
pub proof fn lemma_digits_val_bounds(s: Seq<char>)
    requires
        all_digits(s),
    ensures
        digits_val(s) >= 0,
        forall|i: int| 0 <= i <= s.len() ==> digits_val(#[trigger] s.subrange(0, i)) <= digits_val(s),
    decreases s,
{
    if s.len() == 0 {
        assert(digits_val(s.subrange(0, 0)) == 0);
    } else {
        assert(all_digits(s.drop_last()));
        lemma_digits_val_bounds(s.drop_last());
        assert(is_digit(s.last()));
        assert forall|i: int| 0 <= i <= s.len() implies digits_val(#[trigger] s.subrange(0, i)) <= digits_val(s) by {
            if i < s.len() {
                assert(s.subrange(0, i) =~= s.drop_last().subrange(0, i));
            } else {
                assert(s.subrange(0, i) =~= s);
            }
        }
    }
}

/// The token for a buffer of digits scanned inside the input: an integer
/// literal when the numeral fits in `i32`, else the error token. An
/// overlong numeral becomes an explicit error token; no stage panics on it.
pub open spec fn int_token(buf: Seq<char>) -> Tok {
    if all_digits(buf) && digits_val(buf) <= i32::MAX {
        tok_int(digits_val(buf) as i32)
    } else {
        tok(TokenKind::ERROR)
    }
}

/// The index of the first `'.'` in `s` at or after `i`, or `s.len()`.
pub open spec fn first_point(s: Seq<char>, i: int) -> int
    decreases s.len() - i when 0 <= i <= s.len()
{
    if i >= s.len() {
        i
    } else if s[i] == '.' {
        i
    } else {
        first_point(s, i + 1)
    }
}

/// Whether every character after the first `'.'` of `s` is `'0'`.
pub open spec fn zero_frac(s: Seq<char>) -> bool {
    forall|j: int| first_point(s, 0) < j < s.len() ==> s[j] == '0'
}

/// The token for a completed identifier-or-number buffer: a keyword or type
/// keyword or boolean literal when the buffer matches one exactly; else, a
/// buffer holding a decimal point collapses to an integer literal when its
/// fractional digits are all zero and its integer part fits in `i32` and
/// stays a float literal otherwise; else a buffer of digits becomes an
/// integer literal when it fits in `i32`; anything else is an identifier
/// carrying the buffer as its name.
pub open spec fn match_buffer(buf: Seq<char>) -> Tok {
    if buf == "func"@ {
        tok(TokenKind::FUNC)
    } else if buf == "let"@ {
        tok(TokenKind::LET)
    } else if buf == "if"@ {
        tok(TokenKind::IF)
    } else if buf == "else"@ {
        tok(TokenKind::ELSE)
    } else if buf == "return"@ {
        tok(TokenKind::RETURN)
    } else if buf == "while"@ {
        tok(TokenKind::WHILE)
    } else if buf == "print"@ {
        tok(TokenKind::PRINT)
    } else if buf == "i32"@ {
        tok(TokenKind::TYPE_INT32)
    } else if buf == "f32"@ {
        tok(TokenKind::TYPE_FLT32)
    } else if buf == "char"@ {
        tok(TokenKind::TYPE_CHAR)
    } else if buf == "bool"@ {
        tok(TokenKind::TYPE_BOOL)
    } else if buf == "true"@ {
        tok_bool(true)
    } else if buf == "false"@ {
        tok_bool(false)
    } else if buf.contains('.') {
        let intpart = buf.subrange(0, first_point(buf, 0));
        if zero_frac(buf) && all_digits(intpart) && digits_val(intpart) <= i32::MAX {
            tok_int(digits_val(intpart) as i32)
        } else {
            tok_flt(buf)
        }
    } else if buf.len() > 0 && all_digits(buf) && digits_val(buf) <= i32::MAX {
        tok_int(digits_val(buf) as i32)
    } else {
        tok_id(buf)
    }
}

/// The token that a pending operator-prefix state resolves to when the input
/// ends, and the end-of-input token for every other state.
pub open spec fn eoi_pending_token(state: LexerState) -> Tok {
    match state {
        LexerState::Greater => tok(TokenKind::GT),
        LexerState::Less => tok(TokenKind::LT),
        LexerState::Equal => tok(TokenKind::ASSIGN),
        LexerState::Not => tok(TokenKind::NOT),
        LexerState::Dash => tok(TokenKind::SUB),
        LexerState::Slash => tok(TokenKind::DIV),
        LexerState::And => tok(TokenKind::AND),
        LexerState::Or => tok(TokenKind::OR),
        _ => tok(TokenKind::EOI),
    }
}

/// The result of scanning one token: the token and the position from which
/// the next scan continues.
pub ghost struct ScanOut {
    pub token: Tok,
    pub end: int,
}

/// Extra recursion budget for the states that can rewind one character and
/// re-enter the rest state without consuming input.
pub open spec fn scan_fuel(state: LexerState) -> int {
    if state == LexerState::And || state == LexerState::Or {
        1int
    } else {
        0int
    }
}

/// One step of the scanning machine, continued to the next emitted token:
/// from position `pos` in state `state` with pending buffer `buf`, the token
/// that the machine emits and the position after it. Maximal munch: partial
/// tokens accumulate until a non-matching character, which is then given
/// back; at the end of the input any pending partial token is flushed before
/// the end-of-input token is emitted.
pub open spec fn scan(input: Seq<char>, pos: int, state: LexerState, buf: Seq<char>) -> ScanOut
    decreases input.len() - pos, scan_fuel(state)
        when 0 <= pos <= input.len()
{
    if pos == input.len() {
        if state == LexerState::NumPoint {
            // a trailing "digits." flushes the digits and gives back the point
            ScanOut { token: int_token(buf), end: pos - 1 }
        } else if buf.len() > 0 {
            ScanOut { token: match_buffer(buf), end: pos }
        } else {
            ScanOut { token: eoi_pending_token(state), end: pos }
        }
    } else {
        let c = input[pos];
        match state {
            LexerState::Start => {
                if is_ident_start(c) {
                    scan(input, pos + 1, LexerState::Chars, seq![c])
                } else if is_digit(c) {
                    scan(input, pos + 1, LexerState::Numbers, seq![c])
                } else if c == '\'' {
                    scan(input, pos + 1, LexerState::ReadChar, buf)
                } else if c == '"' {
                    scan(input, pos + 1, LexerState::ReadString, buf)
                } else if c == '{' {
                    ScanOut { token: tok(TokenKind::BRACE_L), end: pos + 1 }
                } else if c == '}' {
                    ScanOut { token: tok(TokenKind::BRACE_R), end: pos + 1 }
                } else if c == '[' {
                    ScanOut { token: tok(TokenKind::BRACKET_L), end: pos + 1 }
                } else if c == ']' {
                    ScanOut { token: tok(TokenKind::BRACKET_R), end: pos + 1 }
                } else if c == '(' {
                    ScanOut { token: tok(TokenKind::PARENS_L), end: pos + 1 }
                } else if c == ')' {
                    ScanOut { token: tok(TokenKind::PARENS_R), end: pos + 1 }
                } else if c == '!' {
                    scan(input, pos + 1, LexerState::Not, buf)
                } else if c == '&' {
                    scan(input, pos + 1, LexerState::And, buf)
                } else if c == '|' {
                    scan(input, pos + 1, LexerState::Or, buf)
                } else if c == '.' {
                    ScanOut { token: tok(TokenKind::POINT), end: pos + 1 }
                } else if c == ',' {
                    ScanOut { token: tok(TokenKind::COMMA), end: pos + 1 }
                } else if c == ':' {
                    ScanOut { token: tok(TokenKind::COLON), end: pos + 1 }
                } else if c == ';' {
                    ScanOut { token: tok(TokenKind::SEMICOLON), end: pos + 1 }
                } else if c == '+' {
                    ScanOut { token: tok(TokenKind::ADD), end: pos + 1 }
                } else if c == '-' {
                    scan(input, pos + 1, LexerState::Dash, buf)
                } else if c == '*' {
                    ScanOut { token: tok(TokenKind::MUL), end: pos + 1 }
                } else if c == '/' {
                    scan(input, pos + 1, LexerState::Slash, buf)
                } else if c == '=' {
                    scan(input, pos + 1, LexerState::Equal, buf)
                } else if c == '<' {
                    scan(input, pos + 1, LexerState::Less, buf)
                } else if c == '>' {
                    scan(input, pos + 1, LexerState::Greater, buf)
                } else {
                    // any other character is skipped
                    scan(input, pos + 1, LexerState::Start, buf)
                }
            },
            LexerState::Chars => {
                if is_ident_char(c) {
                    scan(input, pos + 1, LexerState::Chars, buf.push(c))
                } else {
                    // give the character back and flush the buffer
                    ScanOut { token: match_buffer(buf), end: pos }
                }
            },
            LexerState::Numbers => {
                if is_digit(c) {
                    scan(input, pos + 1, LexerState::Numbers, buf.push(c))
                } else if c == '.' {
                    scan(input, pos + 1, LexerState::NumPoint, buf)
                } else {
                    ScanOut { token: int_token(buf), end: pos }
                }
            },
            LexerState::NumPoint => {
                if is_digit(c) {
                    scan(input, pos + 1, LexerState::Decimals, buf.push('.').push(c))
                } else {
                    // the point did not start decimals: give back both
                    // characters and emit the integer
                    ScanOut { token: int_token(buf), end: pos - 1 }
                }
            },
            LexerState::Decimals => {
                if is_digit(c) {
                    scan(input, pos + 1, LexerState::Decimals, buf.push(c))
                } else {
                    ScanOut { token: tok_flt(buf), end: pos }
                }
            },
            LexerState::ReadChar => {
                if c == '\'' {
                    if buf.len() == 1 {
                        ScanOut { token: tok_char(buf[0]), end: pos + 1 }
                    } else {
                        // a character literal must hold exactly one character
                        ScanOut { token: tok(TokenKind::ERROR), end: pos + 1 }
                    }
                } else {
                    scan(input, pos + 1, LexerState::ReadChar, buf.push(c))
                }
            },
            LexerState::ReadString => {
                if c == '"' {
                    ScanOut { token: tok_string(buf), end: pos + 1 }
                } else {
                    scan(input, pos + 1, LexerState::ReadString, buf.push(c))
                }
            },
            LexerState::Not => {
                if c == '=' {
                    ScanOut { token: tok(TokenKind::NEQ), end: pos + 1 }
                } else {
                    ScanOut { token: tok(TokenKind::NOT), end: pos }
                }
            },
            LexerState::And => {
                if c == '&' {
                    ScanOut { token: tok(TokenKind::AND), end: pos + 1 }
                } else {
                    // a lone ampersand is given back and skipped
                    scan(input, pos, LexerState::Start, buf)
                }
            },
            LexerState::Or => {
                if c == '|' {
                    ScanOut { token: tok(TokenKind::OR), end: pos + 1 }
                } else {
                    scan(input, pos, LexerState::Start, buf)
                }
            },
            LexerState::Dash => {
                if c == '>' {
                    ScanOut { token: tok(TokenKind::ARROW_R), end: pos + 1 }
                } else {
                    ScanOut { token: tok(TokenKind::SUB), end: pos }
                }
            },
            LexerState::Equal => {
                if c == '=' {
                    ScanOut { token: tok(TokenKind::EQ), end: pos + 1 }
                } else {
                    ScanOut { token: tok(TokenKind::ASSIGN), end: pos }
                }
            },
            LexerState::Greater => {
                if c == '=' {
                    ScanOut { token: tok(TokenKind::NLT), end: pos + 1 }
                } else {
                    ScanOut { token: tok(TokenKind::GT), end: pos }
                }
            },
            LexerState::Less => {
                if c == '=' {
                    ScanOut { token: tok(TokenKind::NGT), end: pos + 1 }
                } else {
                    ScanOut { token: tok(TokenKind::LT), end: pos }
                }
            },
            LexerState::Slash => {
                if c == '/' {
                    scan(input, pos + 1, LexerState::Comment, buf)
                } else {
                    ScanOut { token: tok(TokenKind::DIV), end: pos }
                }
            },
            LexerState::Comment => {
                if c == '\n' || c == '\r' {
                    scan(input, pos + 1, LexerState::Start, buf)
                } else {
                    scan(input, pos + 1, LexerState::Comment, buf)
                }
            },
            LexerState::End => ScanOut { token: tok(TokenKind::EOI), end: pos },
        }
    }
}

/// The whole token stream from position `pos`: every emitted token through
/// the end-of-input token, which is included and comes last.
pub open spec fn lex_all(input: Seq<char>, pos: int) -> Seq<Tok>
    decreases input.len() - pos when 0 <= pos <= input.len() via lex_all_decreases
{
    let out = scan(input, pos, LexerState::Start, Seq::empty());
    if out.token.kind == TokenKind::EOI {
        seq![out.token]
    } else {
        seq![out.token] + lex_all(input, out.end)
    }
}

#[via_fn]
proof fn lex_all_decreases(input: Seq<char>, pos: int) {
    lemma_scan_progress(input, pos, LexerState::Start, Seq::empty());
}

/// How far a state may rewind the position when it resolves.
pub open spec fn scan_rewind(state: LexerState) -> int {
    if state == LexerState::NumPoint {
        1int
    } else {
        0int
    }
}

/// Extra progress that resolving from a state guarantees for a token other
/// than end-of-input.
pub open spec fn scan_gain(state: LexerState) -> int {
    if state == LexerState::Start {
        1int
    } else if state == LexerState::NumPoint {
        -1int
    } else {
        0int
    }
}

/// Whether the pending buffer can accompany the state: only the states that
/// accumulate a partial token carry a non-empty buffer.
pub open spec fn buf_consistent(state: LexerState, buf: Seq<char>) -> bool {
    match state {
        LexerState::Chars | LexerState::Numbers | LexerState::NumPoint | LexerState::Decimals
            | LexerState::ReadChar | LexerState::ReadString => true,
        _ => buf.len() == 0,
    }
}

/// Scanning stays inside the input, rewinds at most one position, and, when
/// it emits a token other than end-of-input from the rest state, consumes at
/// least one character.
pub proof fn lemma_scan_progress(input: Seq<char>, pos: int, state: LexerState, buf: Seq<char>)
    requires
        0 <= pos <= input.len(),
        buf_consistent(state, buf),
    ensures
        pos - scan_rewind(state) <= scan(input, pos, state, buf).end <= input.len(),
        scan(input, pos, state, buf).token.kind != TokenKind::EOI ==> scan(
            input,
            pos,
            state,
            buf,
        ).end >= pos + scan_gain(state),
    decreases input.len() - pos, scan_fuel(state),
{
    if pos == input.len() {
    } else {
        let c = input[pos];
        match state {
            LexerState::Start => {
                if is_ident_start(c) {
                    lemma_scan_progress(input, pos + 1, LexerState::Chars, seq![c]);
                } else if is_digit(c) {
                    lemma_scan_progress(input, pos + 1, LexerState::Numbers, seq![c]);
                } else if c == '\'' {
                    lemma_scan_progress(input, pos + 1, LexerState::ReadChar, buf);
                } else if c == '"' {
                    lemma_scan_progress(input, pos + 1, LexerState::ReadString, buf);
                } else if c == '!' {
                    lemma_scan_progress(input, pos + 1, LexerState::Not, buf);
                } else if c == '&' {
                    lemma_scan_progress(input, pos + 1, LexerState::And, buf);
                } else if c == '|' {
                    lemma_scan_progress(input, pos + 1, LexerState::Or, buf);
                } else if c == '-' {
                    lemma_scan_progress(input, pos + 1, LexerState::Dash, buf);
                } else if c == '/' {
                    lemma_scan_progress(input, pos + 1, LexerState::Slash, buf);
                } else if c == '=' {
                    lemma_scan_progress(input, pos + 1, LexerState::Equal, buf);
                } else if c == '<' {
                    lemma_scan_progress(input, pos + 1, LexerState::Less, buf);
                } else if c == '>' {
                    lemma_scan_progress(input, pos + 1, LexerState::Greater, buf);
                } else {
                    lemma_scan_progress(input, pos + 1, LexerState::Start, buf);
                }
            },
            LexerState::Chars => {
                if is_ident_char(c) {
                    lemma_scan_progress(input, pos + 1, LexerState::Chars, buf.push(c));
                }
            },
            LexerState::Numbers => {
                if is_digit(c) {
                    lemma_scan_progress(input, pos + 1, LexerState::Numbers, buf.push(c));
                } else if c == '.' {
                    lemma_scan_progress(input, pos + 1, LexerState::NumPoint, buf);
                }
            },
            LexerState::NumPoint => {
                if is_digit(c) {
                    lemma_scan_progress(input, pos + 1, LexerState::Decimals, buf.push('.').push(c));
                }
            },
            LexerState::Decimals => {
                if is_digit(c) {
                    lemma_scan_progress(input, pos + 1, LexerState::Decimals, buf.push(c));
                }
            },
            LexerState::ReadChar => {
                if c != '\'' {
                    lemma_scan_progress(input, pos + 1, LexerState::ReadChar, buf.push(c));
                }
            },
            LexerState::ReadString => {
                if c != '"' {
                    lemma_scan_progress(input, pos + 1, LexerState::ReadString, buf.push(c));
                }
            },
            LexerState::And => {
                if c != '&' {
                    lemma_scan_progress(input, pos, LexerState::Start, buf);
                }
            },
            LexerState::Or => {
                if c != '|' {
                    lemma_scan_progress(input, pos, LexerState::Start, buf);
                }
            },
            LexerState::Slash => {
                if c == '/' {
                    lemma_scan_progress(input, pos + 1, LexerState::Comment, buf);
                }
            },
            LexerState::Comment => {
                if c == '\n' || c == '\r' {
                    lemma_scan_progress(input, pos + 1, LexerState::Start, buf);
                } else {
                    lemma_scan_progress(input, pos + 1, LexerState::Comment, buf);
                }
            },
            _ => {},
        }
    }
}

/// Relies on `String::push`: appends one character to the string.
#[verifier::external_body]
pub(crate) fn push_char(s: &mut String, c: char)
    ensures
        final(s)@ == old(s)@.push(c),
{
    s.push(c);
}

/// The characters of `buf` collected into a `String`.
fn string_of_chars(buf: &Vec<char>) -> (s: String)
    ensures
        s@ == buf@,
{
    let mut s = String::new();
    let mut i: usize = 0;
    while i < buf.len()
        invariant
            i <= buf@.len(),
            s@ == buf@.subrange(0, i as int),
        decreases buf@.len() - i,
    {
        push_char(&mut s, buf[i]);
        proof {
            assert(buf@.subrange(0, i + 1) =~= buf@.subrange(0, i as int).push(buf@[i as int]));
        }
        i = i + 1;
    }
    proof {
        assert(buf@.subrange(0, buf@.len() as int) =~= buf@);
    }
    s
}

/// The characters of `s` collected into a vector.
fn chars_of_str(s: &str) -> (r: Vec<char>)
    ensures
        r@ == s@,
{
    let n = s.unicode_len();
    let mut r: Vec<char> = Vec::new();
    let mut i: usize = 0;
    while i < n
        invariant
            i <= n == s@.len(),
            r@ == s@.subrange(0, i as int),
        decreases n - i,
    {
        r.push(s.get_char(i));
        proof {
            assert(s@.subrange(0, i + 1) =~= s@.subrange(0, i as int).push(s@[i as int]));
        }
        i = i + 1;
    }
    proof {
        assert(s@.subrange(0, s@.len() as int) =~= s@);
    }
    r
}

/// Whether the buffer holds exactly the characters of `s`.
fn buf_eq_str(buf: &Vec<char>, s: &str) -> (r: bool)
    ensures
        r == (buf@ == s@),
{
    let n = s.unicode_len();
    if buf.len() != n {
        proof {
            assert(buf@ != s@);
        }
        return false;
    }
    let mut i: usize = 0;
    while i < n
        invariant
            i <= n == s@.len() == buf@.len(),
            forall|j: int| 0 <= j < i ==> buf@[j] == s@[j],
        decreases n - i,
    {
        if buf[i] != s.get_char(i) {
            proof {
                assert(buf@ != s@);
            }
            return false;
        }
        i = i + 1;
    }
    proof {
        assert(buf@ =~= s@);
    }
    true
}

/// Whether `c` may start an identifier.
fn is_ident_start_c(c: char) -> (r: bool)
    ensures
        r == is_ident_start(c),
{
    let u = c as u32;
    ('A' as u32 <= u && u <= 'Z' as u32) || ('a' as u32 <= u && u <= 'z' as u32) || c == '_'
}

/// Whether `c` may continue an identifier.
fn is_ident_char_c(c: char) -> (r: bool)
    ensures
        r == is_ident_char(c),
{
    is_ident_start_c(c) || is_digit_c(c) || c == '-'
}

/// Whether `c` is a decimal digit.
fn is_digit_c(c: char) -> (r: bool)
    ensures
        r == is_digit(c),
{
    let u = c as u32;
    '0' as u32 <= u && u <= '9' as u32
}

/// Reads `buf[from..to]` as a decimal numeral: its value when every
/// character is a digit and the value fits in `i32`, nothing otherwise.
fn parse_i32_digits(buf: &Vec<char>, from: usize, to: usize) -> (r: Option<i32>)
    requires
        from <= to <= buf@.len(),
    ensures
        ({
            let s = buf@.subrange(from as int, to as int);
            match r {
                Some(v) => all_digits(s) && digits_val(s) <= i32::MAX && v == digits_val(s),
                None => !(all_digits(s) && digits_val(s) <= i32::MAX),
            }
        }),
{
    let ghost s = buf@.subrange(from as int, to as int);
    let mut val: i32 = 0;
    let mut i: usize = from;
    while i < to
        invariant
            from <= i <= to <= buf@.len(),
            s == buf@.subrange(from as int, to as int),
            all_digits(s.subrange(0, i - from)),
            0 <= val,
            val as int == digits_val(s.subrange(0, i - from)),
        decreases to - i,
    {
        let c = buf[i];
        proof {
            assert(s[i - from] == buf@[i as int]);
        }
        if !is_digit_c(c) {
            proof {
                assert(!all_digits(s));
            }
            return None;
        }
        let d = (c as u32 - '0' as u32) as i32;
        if val > (i32::MAX - d) / 10 {
            proof {
                assert(s.subrange(0, i - from + 1).drop_last() =~= s.subrange(0, i - from));
                assert(s.subrange(0, i - from + 1).last() == c);
                assert(digits_val(s.subrange(0, i - from + 1)) == val * 10 + d);
                assert(val * 10 + d > i32::MAX) by (nonlinear_arith)
                    requires
                        val > (i32::MAX - d) / 10,
                        0 <= d <= 9,
                        0 <= val,
                {
                }
                if all_digits(s) {
                    lemma_digits_val_bounds(s);
                    assert(digits_val(s.subrange(0, i - from + 1)) <= digits_val(s));
                }
            }
            return None;
        }
        proof {
            assert(val * 10 + d <= i32::MAX) by (nonlinear_arith)
                requires
                    val <= (i32::MAX - d) / 10,
                    0 <= d <= 9,
                    0 <= val,
            {
            }
            assert(s.subrange(0, i - from + 1).drop_last() =~= s.subrange(0, i - from));
            assert(s.subrange(0, i - from + 1).last() == c);
        }
        val = val * 10 + d;
        i = i + 1;
    }
    proof {
        assert(s.subrange(0, to - from) =~= s);
    }
    Some(val)
}

/// The index of the first `'.'` in the buffer, or its length.
fn find_point(buf: &Vec<char>) -> (p: usize)
    ensures
        p == first_point(buf@, 0),
        p <= buf@.len(),
        (p < buf@.len()) == buf@.contains('.'),
{
    let mut i: usize = 0;
    while i < buf.len()
        invariant
            i <= buf@.len(),
            first_point(buf@, 0) == first_point(buf@, i as int),
            forall|j: int| 0 <= j < i ==> buf@[j] != '.',
        decreases buf@.len() - i,
    {
        if buf[i] == '.' {
            proof {
                assert(buf@.contains('.'));
            }
            return i;
        }
        i = i + 1;
    }
    proof {
        assert(forall|j: int| 0 <= j < buf@.len() ==> buf@[j] != '.');
        assert(!buf@.contains('.'));
    }
    i
}

/// Whether every character of the buffer after position `p` is `'0'`.
fn all_zero_after(buf: &Vec<char>, p: usize) -> (r: bool)
    requires
        p <= buf@.len(),
    ensures
        r == (forall|j: int| p < j < buf@.len() ==> buf@[j] == '0'),
{
    if p >= buf.len() {
        return true;
    }
    let mut i: usize = p + 1;
    while i < buf.len()
        invariant
            p + 1 <= i <= buf@.len(),
            forall|j: int| p < j < i ==> buf@[j] == '0',
        decreases buf@.len() - i,
    {
        if buf[i] != '0' {
            return false;
        }
        i = i + 1;
    }
    true
}

/// The token for a buffer of digits scanned inside the input; see
/// [`int_token`].
fn token_from_digits(buf: &Vec<char>) -> (t: Token)
    ensures
        t@ == int_token(buf@),
{
    match parse_i32_digits(buf, 0, buf.len()) {
        Some(v) => {
            proof {
                assert(buf@.subrange(0, buf@.len() as int) =~= buf@);
            }
            Token::LIT_INT32 { value: v }
        },
        None => {
            proof {
                assert(buf@.subrange(0, buf@.len() as int) =~= buf@);
            }
            Token::ERROR
        },
    }
}

/// The token for a completed identifier-or-number buffer; see
/// [`match_buffer`].
fn match_buffer_string(buf: &Vec<char>) -> (t: Token)
    ensures
        t@ == match_buffer(buf@),
{
    if buf_eq_str(buf, "func") {
        return Token::FUNC;
    }
    if buf_eq_str(buf, "let") {
        return Token::LET;
    }
    if buf_eq_str(buf, "if") {
        return Token::IF;
    }
    if buf_eq_str(buf, "else") {
        return Token::ELSE;
    }
    if buf_eq_str(buf, "return") {
        return Token::RETURN;
    }
    if buf_eq_str(buf, "while") {
        return Token::WHILE;
    }
    if buf_eq_str(buf, "print") {
        return Token::PRINT;
    }
    if buf_eq_str(buf, "i32") {
        return Token::TYPE_INT32;
    }
    if buf_eq_str(buf, "f32") {
        return Token::TYPE_FLT32;
    }
    if buf_eq_str(buf, "char") {
        return Token::TYPE_CHAR;
    }
    if buf_eq_str(buf, "bool") {
        return Token::TYPE_BOOL;
    }
    if buf_eq_str(buf, "true") {
        return Token::LIT_BOOL { value: true };
    }
    if buf_eq_str(buf, "false") {
        return Token::LIT_BOOL { value: false };
    }
    let p = find_point(buf);
    if p < buf.len() {
        if all_zero_after(buf, p) {
            if let Some(v) = parse_i32_digits(buf, 0, p) {
                return Token::LIT_INT32 { value: v };
            }
        }
        return Token::LIT_FLT32 { value: string_of_chars(buf) };
    }
    if buf.len() > 0 {
        if let Some(v) = parse_i32_digits(buf, 0, buf.len()) {
            proof {
                assert(buf@.subrange(0, buf@.len() as int) =~= buf@);
            }
            return Token::LIT_INT32 { value: v };
        }
        proof {
            assert(buf@.subrange(0, buf@.len() as int) =~= buf@);
        }
    }
    Token::ID { name: string_of_chars(buf) }
}

/// The models of a sequence of tokens, in order.
pub open spec fn toks_of(s: Seq<Token>) -> Seq<Tok> {
    s.map_values(|t: Token| t@)
}

/// The pull lexer: the input characters, the cursor, and the machine state
/// carried between calls. Each call of `advance` consumes as many characters
/// as needed and emits exactly one token.
pub struct Lexer {
    pub input: Vec<char>,
    pub position: usize,
    pub state: LexerState,
    pub current_token: Token,
    pub buffer: Vec<char>,
}

impl Lexer {
    /// Between calls of `advance` the machine rests: the cursor is inside
    /// the input, no partial token is pending, and the end state holds only
    /// at the end of the input.
    pub open spec fn wf(self) -> bool {
        &&& self.position <= self.input@.len()
        &&& self.buffer@.len() == 0
        &&& (self.state == LexerState::Start || self.state == LexerState::End)
        &&& (self.state == LexerState::End ==> self.position == self.input@.len())
    }

    /// A lexer at the start of the given input.
    pub fn new(input: String) -> (r: Lexer)
        ensures
            r.wf(),
            r.input@ == input@,
            r.position == 0,
            r.current_token@ == tok(TokenKind::EOI),
    {
        Lexer {
            input: chars_of_str(input.as_str()),
            position: 0,
            state: LexerState::Start,
            current_token: Token::EOI,
            buffer: Vec::new(),
        }
    }

    /// Restart the lexer on a new input.
    pub fn set_input(&mut self, input: String)
        ensures
            final(self).wf(),
            final(self).input@ == input@,
            final(self).position == 0,
            final(self).current_token@ == tok(TokenKind::EOI),
    {
        self.input = chars_of_str(input.as_str());
        self.position = 0;
        self.state = LexerState::Start;
        self.current_token = Token::EOI;
        self.buffer = Vec::new();
    }

    /// The token that the last call of `advance` emitted.
    pub fn curr(&self) -> (r: Token)
        ensures
            r == self.current_token,
    {
        self.current_token.clone()
    }

    /// Consume as many input characters as needed and emit exactly one
    /// token: the next token of the input, or the end-of-input token when no
    /// characters remain and no partial token is pending.
    pub fn advance(&mut self) -> (r: Token)
        requires
            old(self).wf(),
        ensures
            final(self).wf(),
            final(self).input@ == old(self).input@,
            r == final(self).current_token,
            ({
                let out = scan(
                    old(self).input@,
                    old(self).position as int,
                    LexerState::Start,
                    Seq::<char>::empty(),
                );
                r@ == out.token && final(self).position as int == out.end
            }),
    {
        let ghost target = scan(
            self.input@,
            self.position as int,
            LexerState::Start,
            Seq::<char>::empty(),
        );
        proof {
            assert(self.buffer@ =~= Seq::<char>::empty());
        }
        loop
            invariant_except_break
                self.input@ == old(self).input@,
                self.position <= self.input@.len(),
                buf_consistent(self.state, self.buffer@),
                self.state == LexerState::End ==> self.position == self.input@.len(),
                self.state == LexerState::NumPoint ==> self.position >= 1,
                scan(self.input@, self.position as int, self.state, self.buffer@) == target,
            ensures
                self.wf(),
                self.input@ == old(self).input@,
                self.current_token@ == target.token,
                self.position as int == target.end,
            decreases self.input@.len() - self.position, scan_fuel(self.state),
        {
            if self.position == self.input.len() {
                // the input ended: finalize whatever partial token is pending
                if matches!(self.state, LexerState::NumPoint) {
                    self.current_token = token_from_digits(&self.buffer);
                    self.state = LexerState::Start;
                    self.buffer = Vec::new();
                    self.position = self.position - 1;
                    break;
                }
                if self.buffer.len() > 0 {
                    self.state = LexerState::Start;
                    self.current_token = match_buffer_string(&self.buffer);
                    self.buffer = Vec::new();
                    break;
                }
                self.current_token = match self.state {
                    LexerState::Greater => Token::GT,
                    LexerState::Less => Token::LT,
                    LexerState::Equal => Token::ASSIGN,
                    LexerState::Not => Token::NOT,
                    LexerState::Dash => Token::SUB,
                    LexerState::Slash => Token::DIV,
                    LexerState::And => Token::AND,
                    LexerState::Or => Token::OR,
                    _ => Token::EOI,
                };
                self.state = LexerState::End;
                break;
            }
            let c = self.input[self.position];
            self.position = self.position + 1;
            match self.state {
                LexerState::Start => {
                    if is_ident_start_c(c) {
                        self.state = LexerState::Chars;
                        self.buffer.push(c);
                        proof {
                            assert(self.buffer@ =~= seq![c]);
                        }
                    } else if is_digit_c(c) {
                        self.state = LexerState::Numbers;
                        self.buffer.push(c);
                        proof {
                            assert(self.buffer@ =~= seq![c]);
                        }
                    } else if c == '\'' {
                        self.state = LexerState::ReadChar;
                    } else if c == '"' {
                        self.state = LexerState::ReadString;
                    } else if c == '{' {
                        self.current_token = Token::BRACE_L;
                        break;
                    } else if c == '}' {
                        self.current_token = Token::BRACE_R;
                        break;
                    } else if c == '[' {
                        self.current_token = Token::BRACKET_L;
                        break;
                    } else if c == ']' {
                        self.current_token = Token::BRACKET_R;
                        break;
                    } else if c == '(' {
                        self.current_token = Token::PARENS_L;
                        break;
                    } else if c == ')' {
                        self.current_token = Token::PARENS_R;
                        break;
                    } else if c == '!' {
                        self.state = LexerState::Not;
                    } else if c == '&' {
                        self.state = LexerState::And;
                    } else if c == '|' {
                        self.state = LexerState::Or;
                    } else if c == '.' {
                        self.current_token = Token::POINT;
                        break;
                    } else if c == ',' {
                        self.current_token = Token::COMMA;
                        break;
                    } else if c == ':' {
                        self.current_token = Token::COLON;
                        break;
                    } else if c == ';' {
                        self.current_token = Token::SEMICOLON;
                        break;
                    } else if c == '+' {
                        self.current_token = Token::ADD;
                        break;
                    } else if c == '-' {
                        self.state = LexerState::Dash;
                    } else if c == '*' {
                        self.current_token = Token::MUL;
                        break;
                    } else if c == '/' {
                        self.state = LexerState::Slash;
                    } else if c == '=' {
                        self.state = LexerState::Equal;
                    } else if c == '<' {
                        self.state = LexerState::Less;
                    } else if c == '>' {
                        self.state = LexerState::Greater;
                    } else {
                        // any other character is skipped
                    }
                },
                LexerState::Chars => {
                    if is_ident_char_c(c) {
                        self.buffer.push(c);
                    } else {
                        self.state = LexerState::Start;
                        self.current_token = match_buffer_string(&self.buffer);
                        self.buffer = Vec::new();
                        self.position = self.position - 1;
                        break;
                    }
                },
                LexerState::Numbers => {
                    if is_digit_c(c) {
                        self.buffer.push(c);
                    } else if c == '.' {
                        self.state = LexerState::NumPoint;
                    } else {
                        self.state = LexerState::Start;
                        self.current_token = token_from_digits(&self.buffer);
                        self.buffer = Vec::new();
                        self.position = self.position - 1;
                        break;
                    }
                },
                LexerState::NumPoint => {
                    if is_digit_c(c) {
                        self.state = LexerState::Decimals;
                        self.buffer.push('.');
                        self.buffer.push(c);
                    } else {
                        // the point did not start decimals: give back both
                        // characters and emit the integer
                        self.state = LexerState::Start;
                        self.current_token = token_from_digits(&self.buffer);
                        self.buffer = Vec::new();
                        self.position = self.position - 2;
                        break;
                    }
                },
                LexerState::Decimals => {
                    if is_digit_c(c) {
                        self.buffer.push(c);
                    } else {
                        self.state = LexerState::Start;
                        self.current_token = Token::LIT_FLT32 { value: string_of_chars(&self.buffer) };
                        self.buffer = Vec::new();
                        self.position = self.position - 1;
                        break;
                    }
                },
                LexerState::ReadChar => {
                    if c == '\'' {
                        self.state = LexerState::Start;
                        if self.buffer.len() == 1 {
                            self.current_token = Token::LIT_CHAR { value: self.buffer[0] };
                        } else {
                            // a character literal must hold exactly one character
                            self.current_token = Token::ERROR;
                        }
                        self.buffer = Vec::new();
                        break;
                    } else {
                        self.buffer.push(c);
                    }
                },
                LexerState::ReadString => {
                    if c == '"' {
                        self.state = LexerState::Start;
                        self.current_token = Token::LIT_STRING { value: string_of_chars(&self.buffer) };
                        self.buffer = Vec::new();
                        break;
                    } else {
                        self.buffer.push(c);
                    }
                },
                LexerState::Not => {
                    if c == '=' {
                        self.state = LexerState::Start;
                        self.current_token = Token::NEQ;
                        break;
                    } else {
                        self.state = LexerState::Start;
                        self.current_token = Token::NOT;
                        self.position = self.position - 1;
                        break;
                    }
                },
                LexerState::And => {
                    if c == '&' {
                        self.state = LexerState::Start;
                        self.current_token = Token::AND;
                        break;
                    } else {
                        // a lone ampersand is given back and skipped
                        self.state = LexerState::Start;
                        self.position = self.position - 1;
                    }
                },
                LexerState::Or => {
                    if c == '|' {
                        self.state = LexerState::Start;
                        self.current_token = Token::OR;
                        break;
                    } else {
                        self.state = LexerState::Start;
                        self.position = self.position - 1;
                    }
                },
                LexerState::Dash => {
                    if c == '>' {
                        self.state = LexerState::Start;
                        self.current_token = Token::ARROW_R;
                        break;
                    } else {
                        self.state = LexerState::Start;
                        self.current_token = Token::SUB;
                        self.position = self.position - 1;
                        break;
                    }
                },
                LexerState::Equal => {
                    if c == '=' {
                        self.state = LexerState::Start;
                        self.current_token = Token::EQ;
                        break;
                    } else {
                        self.state = LexerState::Start;
                        self.current_token = Token::ASSIGN;
                        self.position = self.position - 1;
                        break;
                    }
                },
                LexerState::Greater => {
                    if c == '=' {
                        self.state = LexerState::Start;
                        self.current_token = Token::NLT;
                        break;
                    } else {
                        self.state = LexerState::Start;
                        self.current_token = Token::GT;
                        self.position = self.position - 1;
                        break;
                    }
                },
                LexerState::Less => {
                    if c == '=' {
                        self.state = LexerState::Start;
                        self.current_token = Token::NGT;
                        break;
                    } else {
                        self.state = LexerState::Start;
                        self.current_token = Token::LT;
                        self.position = self.position - 1;
                        break;
                    }
                },
                LexerState::Slash => {
                    if c == '/' {
                        // a comment runs to the end of the line
                        self.state = LexerState::Comment;
                    } else {
                        self.state = LexerState::Start;
                        self.current_token = Token::DIV;
                        self.position = self.position - 1;
                        break;
                    }
                },
                LexerState::Comment => {
                    if c == '\n' || c == '\r' {
                        self.state = LexerState::Start;
                    } else {
                        // keep skipping comment characters
                    }
                },
                LexerState::End => {
                    // unreachable: the end state holds only at the end of
                    // the input
                },
            }
        }
        self.curr()
    }

    /// Run the lexer to the end of its input: every remaining token, the
    /// end-of-input token included and last.
    pub fn tokens(&mut self) -> (r: Vec<Token>)
        requires
            old(self).wf(),
        ensures
            final(self).wf(),
            final(self).input@ == old(self).input@,
            toks_of(r@) == lex_all(old(self).input@, old(self).position as int),
    {
        let ghost input0 = self.input@;
        let ghost pos0 = self.position as int;
        let mut r: Vec<Token> = Vec::new();
        loop
            invariant_except_break
                self.wf(),
                self.input@ == input0,
                0 <= pos0 <= input0.len(),
                lex_all(input0, pos0) == toks_of(r@) + lex_all(input0, self.position as int),
            ensures
                self.wf(),
                self.input@ == input0,
                toks_of(r@) == lex_all(input0, pos0),
            decreases input0.len() - self.position,
        {
            let ghost p = self.position as int;
            let ghost r_before = r@;
            let t = self.advance();
            let is_eoi = t.kind() == TokenKind::EOI;
            let ghost tm = t@;
            r.push(t);
            proof {
                assert(toks_of(r@) =~= toks_of(r_before).push(tm));
                let out = scan(input0, p, LexerState::Start, Seq::<char>::empty());
                if tm.kind == TokenKind::EOI {
                    assert(lex_all(input0, p) =~= seq![tm]);
                    assert(toks_of(r@) =~= lex_all(input0, pos0));
                } else {
                    lemma_scan_progress(input0, p, LexerState::Start, Seq::<char>::empty());
                    assert(lex_all(input0, p) =~= seq![tm] + lex_all(input0, out.end));
                    assert(lex_all(input0, pos0) =~= toks_of(r@) + lex_all(
                        input0,
                        self.position as int,
                    ));
                }
            }
            if is_eoi {
                break;
            }
        }
        r
    }
}

} // verus!
