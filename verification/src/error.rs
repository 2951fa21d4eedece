use vstd::prelude::*;

verus! {

/// Errors reported by the stages of the interpreter.
#[derive(Debug, Clone, PartialEq)]
pub enum ScriptError {
    LexerError { line: usize, column: usize, message: String },
    ParseError { line: usize, column: usize, message: String },
    SemanticError { line: usize, column: usize, message: String },
    RuntimeError { line: usize, message: String },
}

/// The mathematical model of a [`ScriptError`].
pub enum ErrorView {
    Lexer { line: nat, column: nat, message: Seq<char> },
    Parse { line: nat, column: nat, message: Seq<char> },
    Semantic { line: nat, column: nat, message: Seq<char> },
    Runtime { line: nat, message: Seq<char> },
}

impl View for ScriptError {
    type V = ErrorView;

    open spec fn view(&self) -> ErrorView {
        match self {
            ScriptError::LexerError { line, column, message } => ErrorView::Lexer {
                line: *line as nat,
                column: *column as nat,
                message: message@,
            },
            ScriptError::ParseError { line, column, message } => ErrorView::Parse {
                line: *line as nat,
                column: *column as nat,
                message: message@,
            },
            ScriptError::SemanticError { line, column, message } => ErrorView::Semantic {
                line: *line as nat,
                column: *column as nat,
                message: message@,
            },
            ScriptError::RuntimeError { line, message } => ErrorView::Runtime {
                line: *line as nat,
                message: message@,
            },
        }
    }
}

/// `String::push`: appends one character to a string.
#[verifier::external_body]
pub(crate) fn push_char(s: &mut String, c: char)
    ensures
        final(s)@ == old(s)@.push(c),
{
    s.push(c);
}

/// A string holding the characters `chars[start..end]`.
pub(crate) fn string_of(chars: &Vec<char>, start: usize, end: usize) -> (r: String)
    requires
        start <= end <= chars@.len(),
    ensures
        r@ == chars@.subrange(start as int, end as int),
{
    let mut r = String::new();
    let mut i = start;
    while i < end
        invariant
            start <= i <= end <= chars@.len(),
            r@ == chars@.subrange(start as int, i as int),
        decreases end - i,
    {
        push_char(&mut r, chars[i]);
        assert(chars@.subrange(start as int, i + 1) =~= chars@.subrange(start as int, i as int).push(chars@[i as int]));
        i += 1;
    }
    r
}

/// A string holding the text of a literal.
pub(crate) fn text(s: &str) -> (r: String)
    ensures
        r@ == s@,
{
    String::from_str(s)
}

/// Appends the characters of `t` to `s`.
pub(crate) fn push_text(s: &mut String, t: &str)
    ensures
        final(s)@ == old(s)@ + t@,
{
    proof {
        broadcast use vstd::string::group_string_axioms;
    }
    let ghost start = s@;
    for c in it: t.chars()
        invariant
            s@ == start + it.seq().take(it.index() as int),
    {
        push_char(s, c);
        assert(s@ =~= start + it.seq().take(it.index() as int + 1));
    }
    assert(s@ =~= start + t@);
}

/// The decimal digit for `d`, which is below ten.
pub open spec fn digit_char(d: nat) -> char {
    if d == 0 { '0' } else if d == 1 { '1' } else if d == 2 { '2' } else if d == 3 { '3' }
    else if d == 4 { '4' } else if d == 5 { '5' } else if d == 6 { '6' } else if d == 7 { '7' }
    else if d == 8 { '8' } else { '9' }
}

/// The decimal notation of `n`, without leading zeros.
pub open spec fn decimal(n: nat) -> Seq<char>
    decreases n,
{
    if n < 10 {
        seq![digit_char(n)]
    } else {
        decimal(n / 10).push(digit_char(n % 10))
    }
}

/// Appends the decimal notation of `n` to `s`.
pub(crate) fn push_decimal(s: &mut String, n: u64)
    ensures
        final(s)@ == old(s)@ + decimal(n as nat),
    decreases n,
{
    if n >= 10 {
        push_decimal(s, n / 10);
    }
    let d = n % 10;
    let c = if d == 0 { '0' } else if d == 1 { '1' } else if d == 2 { '2' } else if d == 3 { '3' }
        else if d == 4 { '4' } else if d == 5 { '5' } else if d == 6 { '6' } else if d == 7 { '7' }
        else if d == 8 { '8' } else { '9' };
    push_char(s, c);
    assert(final(s)@ =~= old(s)@ + decimal(n as nat)) by {
        if n < 10 {
            assert(decimal(n as nat) == seq![digit_char(n as nat)]);
        }
    }
}

/// The report of an error as the interpreter prints it: the kind of error in
/// red, where it happened, and the message.
pub open spec fn describe(e: ErrorView) -> Seq<char> {
    match e {
        ErrorView::Lexer { line, column, message } => "[\x1b[31mLepat Maca\x1b[0m | Baris "@ + decimal(line)
            + ", Kolom "@ + decimal(column) + "] Hapunten: "@ + message,
        ErrorView::Parse { line, column, message } => "[\x1b[31mLepat Sintaks\x1b[0m | Baris "@ + decimal(
            line,
        ) + ", Kolom "@ + decimal(column) + "] Hapunten: "@ + message,
        ErrorView::Semantic { line, column, message } => "[\x1b[31mLepat Semantik\x1b[0m | Baris "@
            + decimal(line) + ", Kolom "@ + decimal(column) + "] Hapunten: "@ + message,
        ErrorView::Runtime { line, message } => "[\x1b[31mLepat Eksekusi\x1b[0m | Baris "@ + decimal(line)
            + "] Hapunten: "@ + message,
    }
}

impl ScriptError {
    /// The report of this error as the interpreter prints it.
    pub fn to_string(&self) -> (r: String)
        ensures
            r@ == describe(self@),
    {
        let mut r = String::new();
        match self {
            ScriptError::LexerError { line, column, message } => {
                push_text(&mut r, "[\x1b[31mLepat Maca\x1b[0m | Baris ");
                push_decimal(&mut r, *line as u64);
                push_text(&mut r, ", Kolom ");
                push_decimal(&mut r, *column as u64);
                push_text(&mut r, "] Hapunten: ");
                push_text(&mut r, message.as_str());
            },
            ScriptError::ParseError { line, column, message } => {
                push_text(&mut r, "[\x1b[31mLepat Sintaks\x1b[0m | Baris ");
                push_decimal(&mut r, *line as u64);
                push_text(&mut r, ", Kolom ");
                push_decimal(&mut r, *column as u64);
                push_text(&mut r, "] Hapunten: ");
                push_text(&mut r, message.as_str());
            },
            ScriptError::SemanticError { line, column, message } => {
                push_text(&mut r, "[\x1b[31mLepat Semantik\x1b[0m | Baris ");
                push_decimal(&mut r, *line as u64);
                push_text(&mut r, ", Kolom ");
                push_decimal(&mut r, *column as u64);
                push_text(&mut r, "] Hapunten: ");
                push_text(&mut r, message.as_str());
            },
            ScriptError::RuntimeError { line, message } => {
                push_text(&mut r, "[\x1b[31mLepat Eksekusi\x1b[0m | Baris ");
                push_decimal(&mut r, *line as u64);
                push_text(&mut r, "] Hapunten: ");
                push_text(&mut r, message.as_str());
            },
        }
        assert(r@ =~= describe(self@));
        r
    }
}

} // verus!
