use vstd::prelude::*;

use crate::error::{push_char, string_of, text, ErrorView, ScriptError};
use crate::token::{tokens_view, Token, TokenKind, TokenType, TokenView};

verus! {

// ---------------------------------------------------------------------------
// Character classes
// ---------------------------------------------------------------------------

/// Whether a character outside ASCII has the Unicode `Alphabetic` property.
pub uninterp spec fn spec_is_alphabetic(c: char) -> bool;

/// Whether a character outside ASCII is numeric in the sense of Unicode (general
/// category `Nd`, `Nl` or `No`).
pub uninterp spec fn spec_is_numeric(c: char) -> bool;

/// Whether a character is a letter (`char::is_alphabetic`): in ASCII the Latin
/// letters, beyond it the characters with the Unicode `Alphabetic` property.
pub open spec fn is_letter(c: char) -> bool {
    if (c as u32) < 128 {
        ('a' <= c && c <= 'z') || ('A' <= c && c <= 'Z')
    } else {
        spec_is_alphabetic(c)
    }
}

/// Whether a character is numeric (`char::is_numeric`): in ASCII the decimal
/// digits, beyond it the characters Unicode counts as numbers.
pub open spec fn is_numeral(c: char) -> bool {
    if (c as u32) < 128 {
        '0' <= c && c <= '9'
    } else {
        spec_is_numeric(c)
    }
}

/// `char::is_alphabetic`: true for the characters with the Unicode `Alphabetic`
/// property, which in ASCII are the Latin letters. Which characters beyond ASCII
/// have it is left to the name `spec_is_alphabetic`.
#[verifier::external_body]
fn char_is_alphabetic(c: char) -> (r: bool)
    ensures
        (c as u32) < 128 ==> r == (('a' <= c && c <= 'z') || ('A' <= c && c <= 'Z')),
        (c as u32) >= 128 ==> r == spec_is_alphabetic(c),
{
    c.is_alphabetic()
}

/// `char::is_alphanumeric`: by its documentation, true exactly when the character
/// is alphabetic or numeric; in ASCII, the Latin letters and the decimal digits.
#[verifier::external_body]
fn char_is_alphanumeric(c: char) -> (r: bool)
    ensures
        (c as u32) < 128 ==> r == (('a' <= c && c <= 'z') || ('A' <= c && c <= 'Z') || ('0' <= c && c <= '9')),
        (c as u32) >= 128 ==> r == (spec_is_alphabetic(c) || spec_is_numeric(c)),
{
    c.is_alphanumeric()
}

pub open spec fn is_digit(c: char) -> bool {
    '0' <= c && c <= '9'
}

pub open spec fn is_ident_char(c: char) -> bool {
    is_letter(c) || is_numeral(c) || c == '_'
}

/// The character at `i`, or `'\0'` past the end.
pub open spec fn peek_at(s: Seq<char>, i: nat) -> char {
    if i < s.len() {
        s[i as int]
    } else {
        '\0'
    }
}

/// The first position at or after `i` that holds a line break, or the end.
pub open spec fn line_end(s: Seq<char>, i: nat) -> nat
    decreases s.len() - i,
{
    if i >= s.len() || s[i as int] == '\n' {
        i
    } else {
        line_end(s, i + 1)
    }
}

/// The first position at or after `i` that does not hold a decimal digit.
pub open spec fn digits_end(s: Seq<char>, i: nat) -> nat
    decreases s.len() - i,
{
    if i >= s.len() || !is_digit(s[i as int]) {
        i
    } else {
        digits_end(s, i + 1)
    }
}

/// The first position at or after `i` that cannot continue an identifier.
pub open spec fn ident_end(s: Seq<char>, i: nat) -> nat
    decreases s.len() - i,
{
    if i >= s.len() || !is_ident_char(s[i as int]) {
        i
    } else {
        ident_end(s, i + 1)
    }
}

pub open spec fn digit_value(c: char) -> nat {
    (c as int - '0' as int) as nat
}

/// The number written by a sequence of decimal digits.
pub open spec fn decimal_value(t: Seq<char>) -> nat
    decreases t.len(),
{
    if t.len() == 0 {
        0
    } else {
        decimal_value(t.drop_last()) * 10 + digit_value(t.last())
    }
}

/// The kind of a word: one of the keywords, or an identifier.
pub open spec fn keyword_kind(t: Seq<char>) -> TokenKind {
    if t == "citak"@ {
        TokenKind::Print
    } else if t == "kosong"@ {
        TokenKind::Null
    } else if t == "lajeungkeun"@ {
        TokenKind::Continue
    } else if t == "lepat"@ {
        TokenKind::False
    } else if t == "leres"@ {
        TokenKind::True
    } else if t == "liren"@ {
        TokenKind::Break
    } else if t == "ngulang"@ {
        TokenKind::While
    } else if t == "pancen"@ {
        TokenKind::Function
    } else if t == "pikeun"@ {
        TokenKind::For
    } else if t == "sanes"@ {
        TokenKind::Else
    } else if t == "simpen"@ {
        TokenKind::Variable
    } else if t == "upami"@ {
        TokenKind::If
    } else if t == "wangsul"@ {
        TokenKind::Return
    } else {
        TokenKind::Identifier
    }
}

/// The character that an escape sequence `\e` stands for.
pub open spec fn escape_value(e: char) -> Option<char> {
    if e == 'n' {
        Some('\n')
    } else if e == 't' {
        Some('\t')
    } else if e == 'r' {
        Some('\r')
    } else if e == '\\' {
        Some('\\')
    } else if e == '"' {
        Some('"')
    } else {
        None
    }
}

// ---------------------------------------------------------------------------
// The scanner as mathematics
// ---------------------------------------------------------------------------

/// How the body of a string literal ends.
pub enum StringScan {
    /// The closing quote stands at `end`; `value` is the text with escapes replaced.
    Closed { end: nat, line: nat, col: nat, value: Seq<char> },
    /// The literal is malformed; the error is reported on `line`.
    Failed { line: nat, message: Seq<char> },
}

/// Reads the body of a string literal from `i` on, where the text read so far is `value`.
pub open spec fn scan_string(
    s: Seq<char>,
    i: nat,
    line: nat,
    col: nat,
    value: Seq<char>,
    start_line: nat,
) -> StringScan
    decreases s.len() - i,
{
    if i >= s.len() {
        StringScan::Failed { line: start_line, message: "Kutipan teks teu ditutup ku '\"'."@ }
    } else if s[i as int] == '"' {
        StringScan::Closed { end: i, line, col, value }
    } else if s[i as int] == '\n' {
        scan_string(s, i + 1, line + 1, 1, value.push('\n'), start_line)
    } else if s[i as int] == '\\' {
        if i + 1 >= s.len() {
            StringScan::Failed { line, message: "Teks teu ditutup saatos karakter escape."@ }
        } else {
            match escape_value(s[i + 1int]) {
                Some(v) => scan_string(s, i + 2, line, col + 2, value.push(v), start_line),
                None => StringScan::Failed {
                    line,
                    message: "Karakter escape '\\"@ + seq![s[i + 1int]] + "' teu dipikawanoh."@,
                },
            }
        }
    } else {
        scan_string(s, i + 1, line, col + 1, value.push(s[i as int]), start_line)
    }
}

/// What reading one token does.
pub enum ScanStep {
    /// Blank space or a comment was passed over.
    Skip { cur: nat, line: nat, col: nat },
    /// A token was read.
    Emit { cur: nat, line: nat, col: nat, token: TokenView },
    /// The text cannot be read.
    Fail { error: ErrorView },
}

pub open spec fn lex_error(line: nat, col: nat, message: Seq<char>) -> ScanStep {
    ScanStep::Fail { error: ErrorView::Lexer { line, column: col, message } }
}

/// A token whose text runs from `start` to `end` on a single line.
pub open spec fn emit(s: Seq<char>, start: nat, end: nat, line: nat, col: nat, kind: TokenKind) -> ScanStep {
    ScanStep::Emit {
        cur: end,
        line,
        col: col + (end - start) as nat,
        token: TokenView { kind, lexeme: s.subrange(start as int, end as int), line, column: col },
    }
}

/// An operator of one character, or of two when the second is `=`.
pub open spec fn emit_pair(
    s: Seq<char>,
    start: nat,
    line: nat,
    col: nat,
    if_pair: TokenKind,
    if_single: TokenKind,
) -> ScanStep {
    if peek_at(s, start + 1) == '=' {
        emit(s, start, start + 2, line, col, if_pair)
    } else {
        emit(s, start, start + 1, line, col, if_single)
    }
}

pub open spec fn scan_number(s: Seq<char>, start: nat, line: nat, col: nat) -> ScanStep {
    let e1 = digits_end(s, start + 1);
    let frac = peek_at(s, e1) == '.' && is_digit(peek_at(s, e1 + 1));
    let e2 = if frac {
        digits_end(s, e1 + 1)
    } else {
        e1
    };
    let t = s.subrange(start as int, e2 as int);
    if frac {
        emit(s, start, e2, line, col, TokenKind::Float(t))
    } else if decimal_value(t) <= i64::MAX {
        emit(s, start, e2, line, col, TokenKind::Integer(decimal_value(t) as i64))
    } else {
        lex_error(line, col, "Gagal maca angka buleud: "@ + t + "."@)
    }
}

pub open spec fn scan_quoted(s: Seq<char>, start: nat, line: nat, col: nat) -> ScanStep {
    match scan_string(s, start + 1, line, col + 1, seq![], line) {
        StringScan::Closed { end, line: l2, col: k2, value } => ScanStep::Emit {
            cur: end + 1,
            line: l2,
            col: k2 + 1,
            token: TokenView {
                kind: TokenKind::Str(value),
                lexeme: s.subrange(start as int, end + 1int),
                line,
                column: col,
            },
        },
        StringScan::Failed { line: l2, message } => lex_error(l2, col, message),
    }
}

/// Reads one token, or passes over blank space or a comment, starting at `start`
/// on line `line` and column `col`.
pub open spec fn scan_token(s: Seq<char>, start: nat, line: nat, col: nat) -> ScanStep {
    let c = s[start as int];
    let next = start + 1;
    if c == ' ' || c == '\r' || c == '\t' {
        ScanStep::Skip { cur: next, line, col: col + 1 }
    } else if c == '\n' {
        ScanStep::Skip { cur: next, line: line + 1, col: 1 }
    } else if c == '(' {
        emit(s, start, next, line, col, TokenKind::LParen)
    } else if c == ')' {
        emit(s, start, next, line, col, TokenKind::RParen)
    } else if c == '{' {
        emit(s, start, next, line, col, TokenKind::LBrace)
    } else if c == '}' {
        emit(s, start, next, line, col, TokenKind::RBrace)
    } else if c == '[' {
        emit(s, start, next, line, col, TokenKind::LBracket)
    } else if c == ']' {
        emit(s, start, next, line, col, TokenKind::RBracket)
    } else if c == ',' {
        emit(s, start, next, line, col, TokenKind::Comma)
    } else if c == ';' {
        emit(s, start, next, line, col, TokenKind::Semicolon)
    } else if c == ':' {
        emit(s, start, next, line, col, TokenKind::Colon)
    } else if c == '.' {
        emit(s, start, next, line, col, TokenKind::Dot)
    } else if c == '-' {
        emit(s, start, next, line, col, TokenKind::Minus)
    } else if c == '+' {
        emit(s, start, next, line, col, TokenKind::Plus)
    } else if c == '*' {
        emit(s, start, next, line, col, TokenKind::Star)
    } else if c == '%' {
        emit(s, start, next, line, col, TokenKind::Percent)
    } else if c == '/' {
        if peek_at(s, next) == '/' {
            let e = line_end(s, next + 1);
            ScanStep::Skip { cur: e, line, col: col + (e - start) as nat }
        } else {
            emit(s, start, next, line, col, TokenKind::Slash)
        }
    } else if c == '=' {
        emit_pair(s, start, line, col, TokenKind::Equal, TokenKind::Assign)
    } else if c == '<' {
        emit_pair(s, start, line, col, TokenKind::LessEqual, TokenKind::LessThan)
    } else if c == '>' {
        emit_pair(s, start, line, col, TokenKind::GreaterEqual, TokenKind::GreaterThan)
    } else if c == '!' {
        emit_pair(s, start, line, col, TokenKind::BangEqual, TokenKind::Bang)
    } else if c == '&' {
        if peek_at(s, next) == '&' {
            emit(s, start, next + 1, line, col, TokenKind::And)
        } else {
            lex_error(line, col, "Diperyogikeun '&' saatos '&'."@)
        }
    } else if c == '|' {
        if peek_at(s, next) == '|' {
            emit(s, start, next + 1, line, col, TokenKind::Or)
        } else {
            lex_error(line, col, "Diperyogikeun '|' saatos '|'."@)
        }
    } else if c == '"' {
        scan_quoted(s, start, line, col)
    } else if is_digit(c) {
        scan_number(s, start, line, col)
    } else if is_letter(c) || c == '_' {
        let e = ident_end(s, next);
        emit(s, start, e, line, col, keyword_kind(s.subrange(start as int, e as int)))
    } else {
        lex_error(line, col, "Karakter teu dipikawanoh: '"@ + seq![c] + "'."@)
    }
}

/// The tokens of `s` from position `cur` on, after the tokens `acc` already read.
pub open spec fn lex_from(s: Seq<char>, cur: nat, line: nat, col: nat, acc: Seq<TokenView>) -> Result<
    Seq<TokenView>,
    ErrorView,
>
    decreases s.len() - cur,
{
    if cur >= s.len() {
        Ok(acc.push(TokenView { kind: TokenKind::Eof, lexeme: seq![], line, column: col }))
    } else {
        proof {
            lemma_scan_progress(s, cur, line, col);
        }
        match scan_token(s, cur, line, col) {
            ScanStep::Skip { cur: c2, line: l2, col: k2 } => lex_from(s, c2, l2, k2, acc),
            ScanStep::Emit { cur: c2, line: l2, col: k2, token } => lex_from(
                s,
                c2,
                l2,
                k2,
                acc.push(token),
            ),
            ScanStep::Fail { error } => Err(error),
        }
    }
}

/// The tokens of a source text, ending with an end-of-file token, or the first error.
pub open spec fn spec_tokenize(s: Seq<char>) -> Result<Seq<TokenView>, ErrorView> {
    lex_from(s, 0, 1, 1, seq![])
}

// ---------------------------------------------------------------------------
// Lemmas on the scanner
// ---------------------------------------------------------------------------

proof fn lemma_line_end(s: Seq<char>, i: nat)
    requires
        i <= s.len(),
    ensures
        i <= line_end(s, i) <= s.len(),
    decreases s.len() - i,
{
    if i < s.len() && s[i as int] != '\n' {
        lemma_line_end(s, i + 1);
    }
}

proof fn lemma_digits_end(s: Seq<char>, i: nat)
    requires
        i <= s.len(),
    ensures
        i <= digits_end(s, i) <= s.len(),
    decreases s.len() - i,
{
    if i < s.len() && is_digit(s[i as int]) {
        lemma_digits_end(s, i + 1);
    }
}

proof fn lemma_ident_end(s: Seq<char>, i: nat)
    requires
        i <= s.len(),
    ensures
        i <= ident_end(s, i) <= s.len(),
    decreases s.len() - i,
{
    if i < s.len() && is_ident_char(s[i as int]) {
        lemma_ident_end(s, i + 1);
    }
}

proof fn lemma_scan_string(s: Seq<char>, i: nat, line: nat, col: nat, value: Seq<char>, start_line: nat)
    requires
        i <= s.len(),
        line <= i + 1,
        col <= i + 1,
    ensures
        scan_string(s, i, line, col, value, start_line) matches StringScan::Closed { end, line: l, col: k, .. }
            ==> i <= end < s.len() && l <= end + 1 && k <= end + 1,
    decreases s.len() - i,
{
    if i < s.len() && s[i as int] != '"' {
        if s[i as int] == '\n' {
            lemma_scan_string(s, i + 1, line + 1, 1, value.push('\n'), start_line);
        } else if s[i as int] == '\\' {
            if i + 1 < s.len() {
                if let Some(v) = escape_value(s[i + 1int]) {
                    lemma_scan_string(s, i + 2, line, col + 2, value.push(v), start_line);
                }
            }
        } else {
            lemma_scan_string(s, i + 1, line, col + 1, value.push(s[i as int]), start_line);
        }
    }
}

/// Each step that does not fail moves forward, stays inside the text, and keeps
/// the line and column within one more than the position.
pub proof fn lemma_scan_progress(s: Seq<char>, cur: nat, line: nat, col: nat)
    requires
        cur < s.len(),
    ensures
        scan_token(s, cur, line, col) matches ScanStep::Skip { cur: c, .. } ==> cur < c <= s.len(),
        scan_token(s, cur, line, col) matches ScanStep::Emit { cur: c, .. } ==> cur < c <= s.len(),
        line <= cur + 1 && col <= cur + 1 ==> (scan_token(s, cur, line, col) matches ScanStep::Skip {
            cur: c,
            line: l,
            col: k,
        } ==> l <= c + 1 && k <= c + 1),
        line <= cur + 1 && col <= cur + 1 ==> (scan_token(s, cur, line, col) matches ScanStep::Emit {
            cur: c,
            line: l,
            col: k,
            ..
        } ==> l <= c + 1 && k <= c + 1),
{
    if cur + 2 <= s.len() {
        lemma_line_end(s, cur + 2);
    }
    lemma_digits_end(s, cur + 1);
    lemma_ident_end(s, cur + 1);
    let e1 = digits_end(s, cur + 1);
    if e1 + 1 < s.len() {
        lemma_digits_end(s, e1 + 1);
    }
    if line <= cur + 1 && col <= cur + 1 {
        lemma_scan_string(s, cur + 1, line, col + 1, seq![], line);
    } else {
        lemma_scan_string_end(s, cur + 1, line, col + 1, seq![], line);
    }
}

/// Every token that a step reads is other than end-of-file.
pub proof fn lemma_scan_not_eof(s: Seq<char>, cur: nat, line: nat, col: nat)
    requires
        cur < s.len(),
    ensures
        scan_token(s, cur, line, col) matches ScanStep::Emit { token, .. } ==> !(token.kind is Eof),
{
}

proof fn lemma_lex_from_eof(s: Seq<char>, cur: nat, line: nat, col: nat, acc: Seq<TokenView>)
    requires
        cur <= s.len(),
        acc.len() <= cur,
        forall|i: int| 0 <= i < acc.len() ==> !(#[trigger] acc[i].kind is Eof),
    ensures
        lex_from(s, cur, line, col, acc) matches Ok(ts) ==> {
            &&& 0 < ts.len() <= s.len() + 1
            &&& ts.last().kind is Eof
            &&& forall|i: int| 0 <= i < ts.len() - 1 ==> !(#[trigger] ts[i].kind is Eof)
        },
    decreases s.len() - cur,
{
    if cur < s.len() {
        lemma_scan_progress(s, cur, line, col);
        lemma_scan_not_eof(s, cur, line, col);
        match scan_token(s, cur, line, col) {
            ScanStep::Skip { cur: c2, line: l2, col: k2 } => {
                lemma_lex_from_eof(s, c2, l2, k2, acc);
            },
            ScanStep::Emit { cur: c2, line: l2, col: k2, token } => {
                let acc2 = acc.push(token);
                assert forall|i: int| 0 <= i < acc2.len() implies !(#[trigger] acc2[i].kind is Eof) by {
                    if i < acc.len() {
                        assert(acc2[i] == acc[i]);
                    }
                }
                lemma_lex_from_eof(s, c2, l2, k2, acc2);
            },
            ScanStep::Fail { .. } => {},
        }
    } else {
        let ts = acc.push(TokenView { kind: TokenKind::Eof, lexeme: seq![], line, column: col });
        assert forall|i: int| 0 <= i < ts.len() - 1 implies !(#[trigger] ts[i].kind is Eof) by {
            assert(ts[i] == acc[i]);
        }
    }
}

/// The tokens of a text end with the single end-of-file token, and there are at
/// most one more of them than characters in the text.
pub proof fn lemma_tokens_end_with_eof(s: Seq<char>)
    ensures
        spec_tokenize(s) matches Ok(ts) ==> {
            &&& 0 < ts.len() <= s.len() + 1
            &&& ts.last().kind is Eof
            &&& forall|i: int| 0 <= i < ts.len() - 1 ==> !(#[trigger] ts[i].kind is Eof)
        },
{
    lemma_lex_from_eof(s, 0, 1, 1, seq![]);
}

/// Whether `p` stands somewhere in `s`.
pub open spec fn is_piece_of(p: Seq<char>, s: Seq<char>) -> bool {
    exists|a: int, b: int| 0 <= a <= b <= s.len() && #[trigger] s.subrange(a, b) == p
}

/// A token read at `cur` carries the text from `cur` to where reading stopped.
proof fn lemma_scan_lexeme(s: Seq<char>, cur: nat, line: nat, col: nat)
    requires
        cur < s.len(),
    ensures
        scan_token(s, cur, line, col) matches ScanStep::Emit { cur: c, token, .. } ==> token.lexeme
            == s.subrange(cur as int, c as int),
{
}

proof fn lemma_lex_from_pieces(s: Seq<char>, cur: nat, line: nat, col: nat, acc: Seq<TokenView>)
    requires
        cur <= s.len(),
        forall|i: int| 0 <= i < acc.len() ==> is_piece_of(#[trigger] acc[i].lexeme, s),
    ensures
        lex_from(s, cur, line, col, acc) matches Ok(ts) ==> forall|i: int|
            0 <= i < ts.len() ==> is_piece_of(#[trigger] ts[i].lexeme, s),
    decreases s.len() - cur,
{
    if cur < s.len() {
        lemma_scan_progress(s, cur, line, col);
        lemma_scan_lexeme(s, cur, line, col);
        match scan_token(s, cur, line, col) {
            ScanStep::Skip { cur: c2, line: l2, col: k2 } => {
                lemma_lex_from_pieces(s, c2, l2, k2, acc);
            },
            ScanStep::Emit { cur: c2, line: l2, col: k2, token } => {
                let acc2 = acc.push(token);
                assert(is_piece_of(token.lexeme, s)) by {
                    assert(s.subrange(cur as int, c2 as int) == token.lexeme);
                }
                assert forall|i: int| 0 <= i < acc2.len() implies is_piece_of(#[trigger] acc2[i].lexeme, s) by {
                    if i < acc.len() {
                        assert(acc2[i] == acc[i]);
                    }
                }
                lemma_lex_from_pieces(s, c2, l2, k2, acc2);
            },
            ScanStep::Fail { .. } => {},
        }
    } else {
        let ts = acc.push(TokenView { kind: TokenKind::Eof, lexeme: seq![], line, column: col });
        assert(s.subrange(0, 0) =~= Seq::<char>::empty());
        assert forall|i: int| 0 <= i < ts.len() implies is_piece_of(#[trigger] ts[i].lexeme, s) by {
            if i < acc.len() {
                assert(ts[i] == acc[i]);
            } else {
                assert(ts[i].lexeme == s.subrange(0, 0));
            }
        }
    }
}

/// Every token carries text that stands in the source: its lexeme is a piece of
/// the text it was read from (empty for the end-of-file token).
pub proof fn lemma_token_lexemes_come_from_source(s: Seq<char>)
    ensures
        spec_tokenize(s) matches Ok(ts) ==> forall|i: int| 0 <= i < ts.len() ==> is_piece_of(#[trigger] ts[i].lexeme, s),
{
    lemma_lex_from_pieces(s, 0, 1, 1, seq![]);
}

/// The lines of `ts` never go down.
pub open spec fn lines_ascend(ts: Seq<TokenView>) -> bool {
    forall|i: int, j: int| 0 <= i <= j < ts.len() ==> #[trigger] ts[i].line <= #[trigger] ts[j].line
}

proof fn lemma_scan_string_line(s: Seq<char>, i: nat, line: nat, col: nat, value: Seq<char>, start_line: nat)
    ensures
        scan_string(s, i, line, col, value, start_line) matches StringScan::Closed { line: l, .. } ==> line <= l,
    decreases s.len() - i,
{
    if i < s.len() && s[i as int] != '"' {
        if s[i as int] == '\n' {
            lemma_scan_string_line(s, i + 1, line + 1, 1, value.push('\n'), start_line);
        } else if s[i as int] == '\\' {
            if i + 1 < s.len() {
                if let Some(v) = escape_value(s[i + 1int]) {
                    lemma_scan_string_line(s, i + 2, line, col + 2, value.push(v), start_line);
                }
            }
        } else {
            lemma_scan_string_line(s, i + 1, line, col + 1, value.push(s[i as int]), start_line);
        }
    }
}

/// A step never goes back a line, and a token read stands on the line the step
/// started on.
proof fn lemma_scan_line(s: Seq<char>, cur: nat, line: nat, col: nat)
    requires
        cur < s.len(),
    ensures
        scan_token(s, cur, line, col) matches ScanStep::Skip { line: l, .. } ==> line <= l,
        scan_token(s, cur, line, col) matches ScanStep::Emit { line: l, token, .. } ==> line <= l && token.line
            == line,
{
    lemma_scan_string_line(s, cur + 1, line, col + 1, seq![], line);
}

proof fn lemma_lex_from_lines(s: Seq<char>, cur: nat, line: nat, col: nat, acc: Seq<TokenView>)
    requires
        cur <= s.len(),
        lines_ascend(acc),
        forall|i: int| 0 <= i < acc.len() ==> #[trigger] acc[i].line <= line,
    ensures
        lex_from(s, cur, line, col, acc) matches Ok(ts) ==> lines_ascend(ts),
    decreases s.len() - cur,
{
    if cur < s.len() {
        lemma_scan_progress(s, cur, line, col);
        lemma_scan_line(s, cur, line, col);
        match scan_token(s, cur, line, col) {
            ScanStep::Skip { cur: c2, line: l2, col: k2 } => {
                lemma_lex_from_lines(s, c2, l2, k2, acc);
            },
            ScanStep::Emit { cur: c2, line: l2, col: k2, token } => {
                let acc2 = acc.push(token);
                assert forall|i: int| 0 <= i < acc2.len() implies #[trigger] acc2[i].line <= l2 by {
                    if i < acc.len() {
                        assert(acc2[i] == acc[i]);
                    }
                }
                assert forall|i: int, j: int| 0 <= i <= j < acc2.len() implies #[trigger] acc2[i].line
                    <= #[trigger] acc2[j].line by {
                    if j < acc.len() {
                        assert(acc2[i] == acc[i] && acc2[j] == acc[j]);
                    } else if i < acc.len() {
                        assert(acc2[i] == acc[i]);
                    }
                }
                lemma_lex_from_lines(s, c2, l2, k2, acc2);
            },
            ScanStep::Fail { .. } => {},
        }
    } else {
        let ts = acc.push(TokenView { kind: TokenKind::Eof, lexeme: seq![], line, column: col });
        assert forall|i: int, j: int| 0 <= i <= j < ts.len() implies #[trigger] ts[i].line <= #[trigger] ts[j].line by {
            if j < acc.len() {
                assert(ts[i] == acc[i] && ts[j] == acc[j]);
            } else if i < acc.len() {
                assert(ts[i] == acc[i]);
            }
        }
    }
}

/// Tokens come in the order of the text: their line numbers never go down.
pub proof fn lemma_token_lines_ascend(s: Seq<char>)
    ensures
        spec_tokenize(s) matches Ok(ts) ==> lines_ascend(ts),
{
    lemma_lex_from_lines(s, 0, 1, 1, seq![]);
}

/// The kind of token that each operator and punctuation mark is: `( ) { } [ ]
/// , ; : .`, the arithmetic signs `- + * % /`, `=`, `<`, `>`, `!`, and the
/// pairs `== <= >= != && ||`.
pub open spec fn operator_kind(lexeme: Seq<char>) -> Option<TokenKind> {
    if lexeme.len() == 1 {
        let c = lexeme[0];
        if c == '(' {
            Some(TokenKind::LParen)
        } else if c == ')' {
            Some(TokenKind::RParen)
        } else if c == '{' {
            Some(TokenKind::LBrace)
        } else if c == '}' {
            Some(TokenKind::RBrace)
        } else if c == '[' {
            Some(TokenKind::LBracket)
        } else if c == ']' {
            Some(TokenKind::RBracket)
        } else if c == ',' {
            Some(TokenKind::Comma)
        } else if c == ';' {
            Some(TokenKind::Semicolon)
        } else if c == ':' {
            Some(TokenKind::Colon)
        } else if c == '.' {
            Some(TokenKind::Dot)
        } else if c == '-' {
            Some(TokenKind::Minus)
        } else if c == '+' {
            Some(TokenKind::Plus)
        } else if c == '*' {
            Some(TokenKind::Star)
        } else if c == '%' {
            Some(TokenKind::Percent)
        } else if c == '/' {
            Some(TokenKind::Slash)
        } else if c == '=' {
            Some(TokenKind::Assign)
        } else if c == '<' {
            Some(TokenKind::LessThan)
        } else if c == '>' {
            Some(TokenKind::GreaterThan)
        } else if c == '!' {
            Some(TokenKind::Bang)
        } else {
            None
        }
    } else if lexeme.len() == 2 {
        let (a, b) = (lexeme[0], lexeme[1]);
        if a == '=' && b == '=' {
            Some(TokenKind::Equal)
        } else if a == '<' && b == '=' {
            Some(TokenKind::LessEqual)
        } else if a == '>' && b == '=' {
            Some(TokenKind::GreaterEqual)
        } else if a == '!' && b == '=' {
            Some(TokenKind::BangEqual)
        } else if a == '&' && b == '&' {
            Some(TokenKind::And)
        } else if a == '|' && b == '|' {
            Some(TokenKind::Or)
        } else {
            None
        }
    } else {
        None
    }
}

/// A step reading an operator or a punctuation mark gives the token of that kind.
proof fn lemma_scan_operator_kind(s: Seq<char>, cur: nat, line: nat, col: nat)
    requires
        cur < s.len(),
    ensures
        scan_token(s, cur, line, col) matches ScanStep::Emit { token, .. } ==> (operator_kind(token.lexeme) matches Some(
            k,
        ) ==> token.kind == k),
{
    lemma_scan_progress(s, cur, line, col);
    lemma_scan_lexeme(s, cur, line, col);
    if let ScanStep::Emit { cur: c2, token, .. } = scan_token(s, cur, line, col) {
        let t = token.lexeme;
        assert(t == s.subrange(cur as int, c2 as int));
        assert(t[0] == s[cur as int]);
        if t.len() >= 2 {
            assert(t[1] == s[cur + 1int]);
        }
    }
}

proof fn lemma_lex_from_operator_kinds(s: Seq<char>, cur: nat, line: nat, col: nat, acc: Seq<TokenView>)
    requires
        cur <= s.len(),
        forall|i: int| 0 <= i < acc.len() ==> (operator_kind(#[trigger] acc[i].lexeme) matches Some(k) ==> acc[i].kind == k),
    ensures
        lex_from(s, cur, line, col, acc) matches Ok(ts) ==> forall|i: int|
            0 <= i < ts.len() ==> (operator_kind(#[trigger] ts[i].lexeme) matches Some(k) ==> ts[i].kind == k),
    decreases s.len() - cur,
{
    if cur < s.len() {
        lemma_scan_progress(s, cur, line, col);
        lemma_scan_operator_kind(s, cur, line, col);
        match scan_token(s, cur, line, col) {
            ScanStep::Skip { cur: c2, line: l2, col: k2 } => {
                lemma_lex_from_operator_kinds(s, c2, l2, k2, acc);
            },
            ScanStep::Emit { cur: c2, line: l2, col: k2, token } => {
                let acc2 = acc.push(token);
                assert forall|i: int| 0 <= i < acc2.len() implies (operator_kind(#[trigger] acc2[i].lexeme) matches Some(
                    k,
                ) ==> acc2[i].kind == k) by {
                    if i < acc.len() {
                        assert(acc2[i] == acc[i]);
                    }
                }
                lemma_lex_from_operator_kinds(s, c2, l2, k2, acc2);
            },
            ScanStep::Fail { .. } => {},
        }
    } else {
        let ts = acc.push(TokenView { kind: TokenKind::Eof, lexeme: seq![], line, column: col });
        assert forall|i: int| 0 <= i < ts.len() implies (operator_kind(#[trigger] ts[i].lexeme) matches Some(k)
            ==> ts[i].kind == k) by {
            if i < acc.len() {
                assert(ts[i] == acc[i]);
            }
        }
    }
}

/// The kind of an operator or punctuation token is the one its text names: a
/// `%` in the source is read as `Percent`, `/` as `Slash`, `>=` as
/// `GreaterEqual`, and so on for every mark in `operator_kind`.
pub proof fn lemma_operator_tokens_match_their_text(s: Seq<char>)
    ensures
        spec_tokenize(s) matches Ok(ts) ==> forall|i: int|
            0 <= i < ts.len() ==> (operator_kind(#[trigger] ts[i].lexeme) matches Some(k) ==> ts[i].kind == k),
{
    lemma_lex_from_operator_kinds(s, 0, 1, 1, seq![]);
}

/// The keywords of the language and the token kind each one is: `citak` print,
/// `kosong` null, `lajeungkeun` continue, `lepat` false, `leres` true, `liren`
/// break, `ngulang` while, `pancen` function, `pikeun` for, `sanes` else,
/// `simpen` variable, `upami` if, `wangsul` return.
pub open spec fn keyword_named(word: Seq<char>) -> Option<TokenKind> {
    if word == "wangsul"@ {
        Some(TokenKind::Return)
    } else if word == "upami"@ {
        Some(TokenKind::If)
    } else if word == "simpen"@ {
        Some(TokenKind::Variable)
    } else if word == "sanes"@ {
        Some(TokenKind::Else)
    } else if word == "pikeun"@ {
        Some(TokenKind::For)
    } else if word == "pancen"@ {
        Some(TokenKind::Function)
    } else if word == "ngulang"@ {
        Some(TokenKind::While)
    } else if word == "liren"@ {
        Some(TokenKind::Break)
    } else if word == "leres"@ {
        Some(TokenKind::True)
    } else if word == "lepat"@ {
        Some(TokenKind::False)
    } else if word == "lajeungkeun"@ {
        Some(TokenKind::Continue)
    } else if word == "kosong"@ {
        Some(TokenKind::Null)
    } else if word == "citak"@ {
        Some(TokenKind::Print)
    } else {
        None
    }
}

/// What a token says about its own text: a keyword is read as that keyword, an
/// integer literal has the value its digits write, and a decimal literal carries
/// its text.
pub open spec fn reads_its_text(tok: TokenView) -> bool {
    &&& keyword_named(tok.lexeme) matches Some(k) ==> tok.kind == k
    &&& tok.kind matches TokenKind::Integer(v) ==> v as int == decimal_value(tok.lexeme)
    &&& tok.kind matches TokenKind::Float(x) ==> x == tok.lexeme
}

/// The keywords start with a lower-case letter and are the words that
/// `keyword_kind` turns into keywords.
proof fn lemma_keyword_named(t: Seq<char>)
    ensures
        keyword_named(t) is Some ==> t.len() > 0 && 'a' <= t[0] <= 'z',
        keyword_named(t) matches Some(k) ==> keyword_kind(t) == k,
{
    reveal_strlit("citak");
    reveal_strlit("kosong");
    reveal_strlit("lajeungkeun");
    reveal_strlit("lepat");
    reveal_strlit("leres");
    reveal_strlit("liren");
    reveal_strlit("ngulang");
    reveal_strlit("pancen");
    reveal_strlit("pikeun");
    reveal_strlit("sanes");
    reveal_strlit("simpen");
    reveal_strlit("upami");
    reveal_strlit("wangsul");
    if t == "citak"@ {
    }
    if t == "kosong"@ {
        assert("kosong"@.len() != "citak"@.len());
    }
    if t == "lajeungkeun"@ {
        assert("lajeungkeun"@.len() != "citak"@.len());
        assert("lajeungkeun"@.len() != "kosong"@.len());
    }
    if t == "lepat"@ {
        assert("lepat"@[0] != "citak"@[0]);
        assert("lepat"@.len() != "kosong"@.len());
        assert("lepat"@.len() != "lajeungkeun"@.len());
    }
    if t == "leres"@ {
        assert("leres"@[0] != "citak"@[0]);
        assert("leres"@.len() != "kosong"@.len());
        assert("leres"@.len() != "lajeungkeun"@.len());
        assert("leres"@[2] != "lepat"@[2]);
    }
    if t == "liren"@ {
        assert("liren"@[0] != "citak"@[0]);
        assert("liren"@.len() != "kosong"@.len());
        assert("liren"@.len() != "lajeungkeun"@.len());
        assert("liren"@[1] != "lepat"@[1]);
        assert("liren"@[1] != "leres"@[1]);
    }
    if t == "ngulang"@ {
        assert("ngulang"@.len() != "citak"@.len());
        assert("ngulang"@.len() != "kosong"@.len());
        assert("ngulang"@.len() != "lajeungkeun"@.len());
        assert("ngulang"@.len() != "lepat"@.len());
        assert("ngulang"@.len() != "leres"@.len());
        assert("ngulang"@.len() != "liren"@.len());
    }
    if t == "pancen"@ {
        assert("pancen"@.len() != "citak"@.len());
        assert("pancen"@[0] != "kosong"@[0]);
        assert("pancen"@.len() != "lajeungkeun"@.len());
        assert("pancen"@.len() != "lepat"@.len());
        assert("pancen"@.len() != "leres"@.len());
        assert("pancen"@.len() != "liren"@.len());
        assert("pancen"@.len() != "ngulang"@.len());
    }
    if t == "pikeun"@ {
        assert("pikeun"@.len() != "citak"@.len());
        assert("pikeun"@[0] != "kosong"@[0]);
        assert("pikeun"@.len() != "lajeungkeun"@.len());
        assert("pikeun"@.len() != "lepat"@.len());
        assert("pikeun"@.len() != "leres"@.len());
        assert("pikeun"@.len() != "liren"@.len());
        assert("pikeun"@.len() != "ngulang"@.len());
        assert("pikeun"@[1] != "pancen"@[1]);
    }
    if t == "sanes"@ {
        assert("sanes"@[0] != "citak"@[0]);
        assert("sanes"@.len() != "kosong"@.len());
        assert("sanes"@.len() != "lajeungkeun"@.len());
        assert("sanes"@[0] != "lepat"@[0]);
        assert("sanes"@[0] != "leres"@[0]);
        assert("sanes"@[0] != "liren"@[0]);
        assert("sanes"@.len() != "ngulang"@.len());
        assert("sanes"@.len() != "pancen"@.len());
        assert("sanes"@.len() != "pikeun"@.len());
    }
    if t == "simpen"@ {
        assert("simpen"@.len() != "citak"@.len());
        assert("simpen"@[0] != "kosong"@[0]);
        assert("simpen"@.len() != "lajeungkeun"@.len());
        assert("simpen"@.len() != "lepat"@.len());
        assert("simpen"@.len() != "leres"@.len());
        assert("simpen"@.len() != "liren"@.len());
        assert("simpen"@.len() != "ngulang"@.len());
        assert("simpen"@[0] != "pancen"@[0]);
        assert("simpen"@[0] != "pikeun"@[0]);
        assert("simpen"@.len() != "sanes"@.len());
    }
    if t == "upami"@ {
        assert("upami"@[0] != "citak"@[0]);
        assert("upami"@.len() != "kosong"@.len());
        assert("upami"@.len() != "lajeungkeun"@.len());
        assert("upami"@[0] != "lepat"@[0]);
        assert("upami"@[0] != "leres"@[0]);
        assert("upami"@[0] != "liren"@[0]);
        assert("upami"@.len() != "ngulang"@.len());
        assert("upami"@.len() != "pancen"@.len());
        assert("upami"@.len() != "pikeun"@.len());
        assert("upami"@[0] != "sanes"@[0]);
        assert("upami"@.len() != "simpen"@.len());
    }
    if t == "wangsul"@ {
        assert("wangsul"@.len() != "citak"@.len());
        assert("wangsul"@.len() != "kosong"@.len());
        assert("wangsul"@.len() != "lajeungkeun"@.len());
        assert("wangsul"@.len() != "lepat"@.len());
        assert("wangsul"@.len() != "leres"@.len());
        assert("wangsul"@.len() != "liren"@.len());
        assert("wangsul"@[0] != "ngulang"@[0]);
        assert("wangsul"@.len() != "pancen"@.len());
        assert("wangsul"@.len() != "pikeun"@.len());
        assert("wangsul"@.len() != "sanes"@.len());
        assert("wangsul"@.len() != "simpen"@.len());
        assert("wangsul"@.len() != "upami"@.len());
    }
}

proof fn lemma_scan_reads_its_text(s: Seq<char>, cur: nat, line: nat, col: nat)
    requires
        cur < s.len(),
    ensures
        scan_token(s, cur, line, col) matches ScanStep::Emit { token, .. } ==> reads_its_text(token),
{
    reveal_strlit("citak");
    reveal_strlit("kosong");
    reveal_strlit("lajeungkeun");
    reveal_strlit("lepat");
    reveal_strlit("leres");
    reveal_strlit("liren");
    reveal_strlit("ngulang");
    reveal_strlit("pancen");
    reveal_strlit("pikeun");
    reveal_strlit("sanes");
    reveal_strlit("simpen");
    reveal_strlit("upami");
    reveal_strlit("wangsul");
    lemma_scan_progress(s, cur, line, col);
    lemma_scan_lexeme(s, cur, line, col);
    if let ScanStep::Emit { cur: c2, token, .. } = scan_token(s, cur, line, col) {
        let t = token.lexeme;
        assert(t == s.subrange(cur as int, c2 as int));
        assert(t[0] == s[cur as int]);
        lemma_keyword_named(t);
        if keyword_named(t) is Some {
            let c = s[cur as int];
            assert('a' <= c <= 'z');
            assert(is_letter(c));
            assert(token.kind == keyword_kind(t));
        }
    }
}

proof fn lemma_lex_from_reads_text(s: Seq<char>, cur: nat, line: nat, col: nat, acc: Seq<TokenView>)
    requires
        cur <= s.len(),
        forall|i: int| 0 <= i < acc.len() ==> reads_its_text(#[trigger] acc[i]),
    ensures
        lex_from(s, cur, line, col, acc) matches Ok(ts) ==> forall|i: int| 0 <= i < ts.len() ==> reads_its_text(#[trigger] ts[i]),
    decreases s.len() - cur,
{
    if cur < s.len() {
        lemma_scan_progress(s, cur, line, col);
        lemma_scan_reads_its_text(s, cur, line, col);
        match scan_token(s, cur, line, col) {
            ScanStep::Skip { cur: c2, line: l2, col: k2 } => {
                lemma_lex_from_reads_text(s, c2, l2, k2, acc);
            },
            ScanStep::Emit { cur: c2, line: l2, col: k2, token } => {
                let acc2 = acc.push(token);
                assert forall|i: int| 0 <= i < acc2.len() implies reads_its_text(#[trigger] acc2[i]) by {
                    if i < acc.len() {
                        assert(acc2[i] == acc[i]);
                    }
                }
                lemma_lex_from_reads_text(s, c2, l2, k2, acc2);
            },
            ScanStep::Fail { .. } => {},
        }
    } else {
        reveal_strlit("citak");
        reveal_strlit("kosong");
        reveal_strlit("lajeungkeun");
        reveal_strlit("lepat");
        reveal_strlit("leres");
        reveal_strlit("liren");
        reveal_strlit("ngulang");
        reveal_strlit("pancen");
        reveal_strlit("pikeun");
        reveal_strlit("sanes");
        reveal_strlit("simpen");
        reveal_strlit("upami");
        reveal_strlit("wangsul");
        let ts = acc.push(TokenView { kind: TokenKind::Eof, lexeme: seq![], line, column: col });
        assert forall|i: int| 0 <= i < ts.len() implies reads_its_text(#[trigger] ts[i]) by {
            if i < acc.len() {
                assert(ts[i] == acc[i]);
            }
        }
    }
}

/// Every token reads its own text: each keyword in the source is read as its
/// keyword (`liren` as break, `lajeungkeun` as continue, ...), each integer
/// literal has the value of its digits, and each decimal literal keeps its text.
pub proof fn lemma_tokens_read_their_text(s: Seq<char>)
    ensures
        spec_tokenize(s) matches Ok(ts) ==> forall|i: int| 0 <= i < ts.len() ==> reads_its_text(#[trigger] ts[i]),
{
    lemma_lex_from_reads_text(s, 0, 1, 1, seq![]);
}

proof fn lemma_scan_string_end(s: Seq<char>, i: nat, line: nat, col: nat, value: Seq<char>, start_line: nat)
    requires
        i <= s.len(),
    ensures
        scan_string(s, i, line, col, value, start_line) matches StringScan::Closed { end, .. } ==> i <= end < s.len(),
    decreases s.len() - i,
{
    if i < s.len() && s[i as int] != '"' {
        if s[i as int] == '\n' {
            lemma_scan_string_end(s, i + 1, line + 1, 1, value.push('\n'), start_line);
        } else if s[i as int] == '\\' {
            if i + 1 < s.len() {
                if let Some(v) = escape_value(s[i + 1int]) {
                    lemma_scan_string_end(s, i + 2, line, col + 2, value.push(v), start_line);
                }
            }
        } else {
            lemma_scan_string_end(s, i + 1, line, col + 1, value.push(s[i as int]), start_line);
        }
    }
}

} // verus!

verus! {

// ---------------------------------------------------------------------------
// The scanner
// ---------------------------------------------------------------------------

/// Reads source text into tokens.
pub struct Lexer {
    source: Vec<char>,
}

/// The step that an exec scanning result stands for.
pub open spec fn step_view(r: Result<(usize, usize, usize, Option<Token>), ScriptError>) -> ScanStep {
    match r {
        Ok((c, l, k, None)) => ScanStep::Skip { cur: c as nat, line: l as nat, col: k as nat },
        Ok((c, l, k, Some(t))) => ScanStep::Emit { cur: c as nat, line: l as nat, col: k as nat, token: t@ },
        Err(e) => ScanStep::Fail { error: e@ },
    }
}

fn is_ascii_digit(c: char) -> (r: bool)
    ensures
        r == is_digit(c),
{
    '0' <= c && c <= '9'
}

fn peek(s: &Vec<char>, i: usize) -> (r: char)
    ensures
        r == peek_at(s@, i as nat),
{
    if i < s.len() {
        s[i]
    } else {
        '\0'
    }
}

fn find_line_end(s: &Vec<char>, i: usize) -> (r: usize)
    requires
        i <= s.len(),
    ensures
        r == line_end(s@, i as nat),
{
    let mut j = i;
    while j < s.len() && s[j] != '\n'
        invariant
            i <= j <= s.len(),
            line_end(s@, i as nat) == line_end(s@, j as nat),
        decreases s.len() - j,
    {
        j += 1;
    }
    j
}

fn find_digits_end(s: &Vec<char>, i: usize) -> (r: usize)
    requires
        i <= s.len(),
    ensures
        r == digits_end(s@, i as nat),
{
    let mut j = i;
    while j < s.len() && is_ascii_digit(s[j])
        invariant
            i <= j <= s.len(),
            digits_end(s@, i as nat) == digits_end(s@, j as nat),
        decreases s.len() - j,
    {
        j += 1;
    }
    j
}

fn find_ident_end(s: &Vec<char>, i: usize) -> (r: usize)
    requires
        i <= s.len(),
    ensures
        r == ident_end(s@, i as nat),
{
    let mut j = i;
    while j < s.len() && (char_is_alphanumeric(s[j]) || s[j] == '_')
        invariant
            i <= j <= s.len(),
            ident_end(s@, i as nat) == ident_end(s@, j as nat),
        decreases s.len() - j,
    {
        j += 1;
    }
    j
}

pub(crate) proof fn lemma_decimal_value_mono(t: Seq<char>, j: int, k: int)
    requires
        0 <= j <= k <= t.len(),
    ensures
        decimal_value(t.subrange(0, j)) <= decimal_value(t.subrange(0, k)),
    decreases k - j,
{
    if j < k {
        lemma_decimal_value_mono(t, j, k - 1);
        assert(t.subrange(0, k).drop_last() =~= t.subrange(0, k - 1));
    }
}

/// The value of the digits `s[start..end]`, unless it exceeds `i64::MAX`.
fn parse_integer(s: &Vec<char>, start: usize, end: usize) -> (r: Option<i64>)
    requires
        start <= end <= s@.len(),
        forall|k: int| start <= k < end ==> is_digit(#[trigger] s@[k]),
    ensures
        match r {
            Some(v) => decimal_value(s@.subrange(start as int, end as int)) == v,
            None => decimal_value(s@.subrange(start as int, end as int)) > i64::MAX,
        },
{
    let ghost t = s@.subrange(start as int, end as int);
    let mut v: i64 = 0;
    let mut i = start;
    assert(t.subrange(0, 0) =~= Seq::<char>::empty());
    while i < end
        invariant
            start <= i <= end <= s@.len(),
            t == s@.subrange(start as int, end as int),
            forall|k: int| start <= k < end ==> is_digit(#[trigger] s@[k]),
            0 <= v,
            v == decimal_value(t.subrange(0, i - start)),
        decreases end - i,
    {
        let c = s[i];
        assert(is_digit(s@[i as int]));
        let d: i64 = (c as u32 - '0' as u32) as i64;
        let w: i128 = (v as i128) * 10 + d as i128;
        assert(t.subrange(0, i - start + 1).drop_last() =~= t.subrange(0, i - start));
        assert(t.subrange(0, i - start + 1).last() == c);
        if w > i64::MAX as i128 {
            proof {
                lemma_decimal_value_mono(t, i - start + 1, t.len() as int);
                assert(t.subrange(0, t.len() as int) =~= t);
            }
            return None;
        }
        v = w as i64;
        i += 1;
    }
    assert(t.subrange(0, end - start) =~= t);
    Some(v)
}

/// Whether `s[start..end]` spells out the literal `word`.
fn spells(s: &Vec<char>, start: usize, end: usize, word: &str) -> (r: bool)
    requires
        start <= end <= s@.len(),
    ensures
        r == (s@.subrange(start as int, end as int) == word@),
{
    let n = word.unicode_len();
    if end - start != n {
        return false;
    }
    let mut i: usize = 0;
    while i < n
        invariant
            start <= end <= s@.len(),
            end - start == n == word@.len(),
            0 <= i <= n,
            forall|k: int| 0 <= k < i ==> s@[start + k] == word@[k],
        decreases n - i,
    {
        if s[start + i] != word.get_char(i) {
            assert(s@.subrange(start as int, end as int)[i as int] != word@[i as int]);
            return false;
        }
        i += 1;
    }
    assert(s@.subrange(start as int, end as int) =~= word@);
    true
}

fn keyword_type(s: &Vec<char>, start: usize, end: usize) -> (r: TokenType)
    requires
        start <= end <= s@.len(),
    ensures
        r@ == keyword_kind(s@.subrange(start as int, end as int)),
{
    if spells(s, start, end, "citak") {
        TokenType::Print
    } else if spells(s, start, end, "kosong") {
        TokenType::Null
    } else if spells(s, start, end, "lajeungkeun") {
        TokenType::Continue
    } else if spells(s, start, end, "lepat") {
        TokenType::False
    } else if spells(s, start, end, "leres") {
        TokenType::True
    } else if spells(s, start, end, "liren") {
        TokenType::Break
    } else if spells(s, start, end, "ngulang") {
        TokenType::While
    } else if spells(s, start, end, "pancen") {
        TokenType::Function
    } else if spells(s, start, end, "pikeun") {
        TokenType::For
    } else if spells(s, start, end, "sanes") {
        TokenType::Else
    } else if spells(s, start, end, "simpen") {
        TokenType::Variable
    } else if spells(s, start, end, "upami") {
        TokenType::If
    } else if spells(s, start, end, "wangsul") {
        TokenType::Return
    } else {
        TokenType::Identifier
    }
}

fn escape(e: char) -> (r: Option<char>)
    ensures
        r == escape_value(e),
{
    if e == 'n' {
        Some('\n')
    } else if e == 't' {
        Some('\t')
    } else if e == 'r' {
        Some('\r')
    } else if e == '\\' {
        Some('\\')
    } else if e == '"' {
        Some('"')
    } else {
        None
    }
}

/// Reads the body of a string literal that starts at `i0` on line `line0`.
fn read_string(s: &Vec<char>, i0: usize, line0: usize, col0: usize) -> (r: Result<
    (usize, usize, usize, String),
    (usize, String),
>)
    requires
        i0 <= s@.len() < usize::MAX,
        line0 <= i0 + 1,
        col0 <= i0 + 1,
    ensures
        match r {
            Ok((end, l, k, v)) => scan_string(s@, i0 as nat, line0 as nat, col0 as nat, seq![], line0 as nat)
                == StringScan::Closed { end: end as nat, line: l as nat, col: k as nat, value: v@ },
            Err((l, m)) => scan_string(s@, i0 as nat, line0 as nat, col0 as nat, seq![], line0 as nat)
                == StringScan::Failed { line: l as nat, message: m@ },
        },
{
    let ghost whole = scan_string(s@, i0 as nat, line0 as nat, col0 as nat, seq![], line0 as nat);
    let mut value = String::new();
    let mut i = i0;
    let mut line = line0;
    let mut col = col0;
    loop
        invariant
            i0 <= i <= s@.len() < usize::MAX,
            line <= i + 1,
            col <= i + 1,
            whole == scan_string(s@, i0 as nat, line0 as nat, col0 as nat, seq![], line0 as nat),
            whole == scan_string(s@, i as nat, line as nat, col as nat, value@, line0 as nat),
        decreases s@.len() - i,
    {
        if i >= s.len() {
            return Err((line0, text("Kutipan teks teu ditutup ku '\"'.")));
        }
        let c = s[i];
        assert(s@[i as int] == c);
        if c == '"' {
            return Ok((i, line, col, value));
        }
        if c == '\n' {
            push_char(&mut value, '\n');
            i += 1;
            line += 1;
            col = 1;
        } else if c == '\\' {
            if i + 1 >= s.len() {
                return Err((line, text("Teks teu ditutup saatos karakter escape.")));
            }
            let e = s[i + 1];
            match escape(e) {
                Some(v) => {
                    push_char(&mut value, v);
                    i += 2;
                    col += 2;
                },
                None => {
                    let mut m = text("Karakter escape '\\");
                    push_char(&mut m, e);
                    m.append("' teu dipikawanoh.");
                    assert(m@ =~= "Karakter escape '\\"@ + seq![s@[i + 1int]] + "' teu dipikawanoh."@);
                    return Err((line, m));
                },
            }
        } else {
            push_char(&mut value, c);
            i += 1;
            col += 1;
        }
    }
}

fn lex_fail(line: usize, col: usize, message: String) -> (r: Result<(usize, usize, usize, Option<Token>), ScriptError>)
    ensures
        step_view(r) == lex_error(line as nat, col as nat, message@),
{
    Err(ScriptError::LexerError { line, column: col, message })
}

fn emit_token(s: &Vec<char>, start: usize, end: usize, line: usize, col: usize, kind: TokenType) -> (r: Result<
    (usize, usize, usize, Option<Token>),
    ScriptError,
>)
    requires
        start < end <= s@.len() < usize::MAX,
        col <= start + 1,
    ensures
        step_view(r) == emit(s@, start as nat, end as nat, line as nat, col as nat, kind@),
{
    let lexeme = string_of(s, start, end);
    Ok((end, line, col + (end - start), Some(Token::new(kind, lexeme, line, col))))
}

fn emit_pair_token(
    s: &Vec<char>,
    start: usize,
    line: usize,
    col: usize,
    if_pair: TokenType,
    if_single: TokenType,
) -> (r: Result<(usize, usize, usize, Option<Token>), ScriptError>)
    requires
        start < s@.len() < usize::MAX,
        col <= start + 1,
    ensures
        step_view(r) == emit_pair(s@, start as nat, line as nat, col as nat, if_pair@, if_single@),
{
    if peek(s, start + 1) == '=' {
        emit_token(s, start, start + 2, line, col, if_pair)
    } else {
        emit_token(s, start, start + 1, line, col, if_single)
    }
}

fn read_number(s: &Vec<char>, start: usize, line: usize, col: usize) -> (r: Result<
    (usize, usize, usize, Option<Token>),
    ScriptError,
>)
    requires
        start < s@.len() < usize::MAX,
        is_digit(s@[start as int]),
        col <= start + 1,
    ensures
        step_view(r) == scan_number(s@, start as nat, line as nat, col as nat),
{
    proof {
        lemma_digits_end(s@, start as nat + 1);
    }
    let e1 = find_digits_end(s, start + 1);
    let frac = peek(s, e1) == '.' && is_ascii_digit(peek(s, e1 + 1));
    let e2 = if frac {
        proof {
            lemma_digits_end(s@, e1 as nat + 1);
        }
        find_digits_end(s, e1 + 1)
    } else {
        e1
    };
    if frac {
        let t = string_of(s, start, e2);
        emit_token(s, start, e2, line, col, TokenType::Float(t))
    } else {
        proof {
            lemma_digits_prefix(s@, start as nat, e1 as nat);
        }
        match parse_integer(s, start, e2) {
            Some(v) => emit_token(s, start, e2, line, col, TokenType::Integer(v)),
            None => {
                let mut m = text("Gagal maca angka buleud: ");
                let t = string_of(s, start, e2);
                m.append(t.as_str());
                m.append(".");
                lex_fail(line, col, m)
            },
        }
    }
}

proof fn lemma_digits_prefix(s: Seq<char>, start: nat, e: nat)
    requires
        start < s.len(),
        is_digit(s[start as int]),
        e == digits_end(s, start + 1),
    ensures
        forall|k: int| start <= k < e ==> is_digit(#[trigger] s[k]),
{
    lemma_digits_run(s, start + 1);
}

proof fn lemma_digits_run(s: Seq<char>, i: nat)
    requires
        i <= s.len(),
    ensures
        forall|k: int| i <= k < digits_end(s, i) ==> is_digit(#[trigger] s[k]),
    decreases s.len() - i,
{
    if i < s.len() && is_digit(s[i as int]) {
        lemma_digits_run(s, i + 1);
    }
}

/// Reads one token, or passes over blank space or a comment, starting at `start`.
fn read_token(s: &Vec<char>, start: usize, line: usize, col: usize) -> (r: Result<
    (usize, usize, usize, Option<Token>),
    ScriptError,
>)
    requires
        start < s@.len() < usize::MAX,
        line <= start + 1,
        col <= start + 1,
    ensures
        step_view(r) == scan_token(s@, start as nat, line as nat, col as nat),
{
    let c = s[start];
    let next = start + 1;
    if c == ' ' || c == '\r' || c == '\t' {
        Ok((next, line, col + 1, None))
    } else if c == '\n' {
        Ok((next, line + 1, 1, None))
    } else if c == '(' {
        emit_token(s, start, next, line, col, TokenType::LParen)
    } else if c == ')' {
        emit_token(s, start, next, line, col, TokenType::RParen)
    } else if c == '{' {
        emit_token(s, start, next, line, col, TokenType::LBrace)
    } else if c == '}' {
        emit_token(s, start, next, line, col, TokenType::RBrace)
    } else if c == '[' {
        emit_token(s, start, next, line, col, TokenType::LBracket)
    } else if c == ']' {
        emit_token(s, start, next, line, col, TokenType::RBracket)
    } else if c == ',' {
        emit_token(s, start, next, line, col, TokenType::Comma)
    } else if c == ';' {
        emit_token(s, start, next, line, col, TokenType::Semicolon)
    } else if c == ':' {
        emit_token(s, start, next, line, col, TokenType::Colon)
    } else if c == '.' {
        emit_token(s, start, next, line, col, TokenType::Dot)
    } else if c == '-' {
        emit_token(s, start, next, line, col, TokenType::Minus)
    } else if c == '+' {
        emit_token(s, start, next, line, col, TokenType::Plus)
    } else if c == '*' {
        emit_token(s, start, next, line, col, TokenType::Star)
    } else if c == '%' {
        emit_token(s, start, next, line, col, TokenType::Percent)
    } else if c == '/' {
        if peek(s, next) == '/' {
            proof {
                lemma_line_end(s@, next as nat + 1);
            }
            let e = find_line_end(s, next + 1);
            Ok((e, line, col + (e - start), None))
        } else {
            emit_token(s, start, next, line, col, TokenType::Slash)
        }
    } else if c == '=' {
        emit_pair_token(s, start, line, col, TokenType::Equal, TokenType::Assign)
    } else if c == '<' {
        emit_pair_token(s, start, line, col, TokenType::LessEqual, TokenType::LessThan)
    } else if c == '>' {
        emit_pair_token(s, start, line, col, TokenType::GreaterEqual, TokenType::GreaterThan)
    } else if c == '!' {
        emit_pair_token(s, start, line, col, TokenType::BangEqual, TokenType::Bang)
    } else if c == '&' {
        if peek(s, next) == '&' {
            emit_token(s, start, next + 1, line, col, TokenType::And)
        } else {
            lex_fail(line, col, text("Diperyogikeun '&' saatos '&'."))
        }
    } else if c == '|' {
        if peek(s, next) == '|' {
            emit_token(s, start, next + 1, line, col, TokenType::Or)
        } else {
            lex_fail(line, col, text("Diperyogikeun '|' saatos '|'."))
        }
    } else if c == '"' {
        match read_string(s, next, line, col + 1) {
            Ok((end, l2, k2, value)) => {
                proof {
                    lemma_scan_string(s@, next as nat, line as nat, col as nat + 1, seq![], line as nat);
                }
                let lexeme = string_of(s, start, end + 1);
                Ok((end + 1, l2, k2 + 1, Some(Token::new(TokenType::String(value), lexeme, line, col))))
            },
            Err((l2, message)) => lex_fail(l2, col, message),
        }
    } else if is_ascii_digit(c) {
        read_number(s, start, line, col)
    } else if char_is_alphabetic(c) || c == '_' {
        proof {
            lemma_ident_end(s@, next as nat);
        }
        let e = find_ident_end(s, next);
        let kind = keyword_type(s, start, e);
        emit_token(s, start, e, line, col, kind)
    } else {
        let mut m = text("Karakter teu dipikawanoh: '");
        push_char(&mut m, c);
        m.append("'.");
        assert(m@ =~= "Karakter teu dipikawanoh: '"@ + seq![c] + "'."@);
        lex_fail(line, col, m)
    }
}

impl Lexer {
    #[verifier::type_invariant]
    spec fn fits(self) -> bool {
        self.source@.len() < usize::MAX
    }

    /// The characters this lexer reads.
    pub closed spec fn source(&self) -> Seq<char> {
        self.source@
    }

    pub fn new(source: &str) -> (r: Self)
        requires
            source@.len() < usize::MAX,
        ensures
            r.source() == source@,
    {
        let mut chars: Vec<char> = Vec::new();
        proof {
            broadcast use vstd::string::group_string_axioms;
        }
        for c in it: source.chars()
            invariant
                chars@ == it.seq().take(it.index() as int),
        {
            chars.push(c);
            assert(chars@ =~= it.seq().take(it.index() as int + 1));
        }
        assert(chars@ =~= source@);
        Lexer { source: chars }
    }

    /// The tokens of the source text, ending with an end-of-file token, or the
    /// first error the text holds.
    pub fn tokenize(self) -> (r: Result<Vec<Token>, ScriptError>)
        ensures
            match r {
                Ok(ts) => spec_tokenize(self.source()) == Ok::<Seq<TokenView>, ErrorView>(tokens_view(ts@)),
                Err(e) => spec_tokenize(self.source()) == Err::<Seq<TokenView>, ErrorView>(e@),
            },
    {
        proof {
            use_type_invariant(&self);
        }
        let s = &self.source;
        let mut tokens: Vec<Token> = Vec::new();
        let mut cur: usize = 0;
        let mut line: usize = 1;
        let mut col: usize = 1;
        assert(tokens_view(tokens@) =~= Seq::<TokenView>::empty());
        while cur < s.len()
            invariant
                s@ == self.source(),
                cur <= s@.len() < usize::MAX,
                line <= cur + 1,
                col <= cur + 1,
                spec_tokenize(s@) == lex_from(s@, cur as nat, line as nat, col as nat, tokens_view(tokens@)),
            decreases s@.len() - cur,
        {
            proof {
                lemma_scan_progress(s@, cur as nat, line as nat, col as nat);
            }
            let step = read_token(s, cur, line, col);
            match step {
                Ok((c2, l2, k2, tok)) => {
                    match tok {
                        Some(t) => {
                            let ghost tv = t@;
                            let ghost before = tokens@;
                            tokens.push(t);
                            assert(tokens_view(tokens@) =~= tokens_view(before).push(tv));
                        },
                        None => {},
                    }
                    cur = c2;
                    line = l2;
                    col = k2;
                },
                Err(e) => {
                    assert(scan_token(s@, cur as nat, line as nat, col as nat) == ScanStep::Fail { error: e@ });
                    assert(lex_from(s@, cur as nat, line as nat, col as nat, tokens_view(tokens@))
                        == Err::<Seq<TokenView>, ErrorView>(e@));
                    return Err(e);
                },
            }
        }
        let eof = Token::new(TokenType::Eof, String::new(), line, col);
        let ghost ev = eof@;
        let ghost before = tokens@;
        tokens.push(eof);
        assert(tokens_view(tokens@) =~= tokens_view(before).push(ev));
        assert(ev.lexeme =~= Seq::<char>::empty());
        Ok(tokens)
    }
}

} // verus!
