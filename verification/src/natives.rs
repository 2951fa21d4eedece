use vstd::prelude::*;

use crate::error::{decimal, digit_char, push_char, push_decimal, push_text, string_of, text};
use crate::lexer::{decimal_value, digit_value, is_digit, lemma_decimal_value_mono};

verus! {

// ---------------------------------------------------------------------------
// Methods of integers
// ---------------------------------------------------------------------------

/// The absolute value (`mutlak`). The smallest integer has none.
pub fn integer_abs(value: i64) -> (r: i64)
    requires
        value > i64::MIN,
    ensures
        r == (if value < 0 { -value } else { value as int }),
{
    if value < 0 {
        -value
    } else {
        value
    }
}

/// `value` brought into `[min, max]` (`watesan`); refused when `min > max`.
pub fn integer_clamp(value: i64, min: i64, max: i64) -> (r: Result<i64, String>)
    ensures
        r is Ok <==> min <= max,
        r matches Ok(v) ==> v == (if value < min { min } else if value > max { max } else { value }),
        r matches Err(m) ==> m@ == "Argumen 'min' teu kenging langkung ti 'max'."@,
{
    if min > max {
        return Err(text("Argumen 'min' teu kenging langkung ti 'max'."));
    }
    if value < min {
        Ok(min)
    } else if value > max {
        Ok(max)
    } else {
        Ok(value)
    }
}

/// The decimal notation of an integer, with a minus sign when it is negative.
pub open spec fn signed_decimal(v: int) -> Seq<char> {
    if v < 0 {
        seq!['-'] + decimal((-v) as nat)
    } else {
        decimal(v as nat)
    }
}

/// The text of an integer (`janten_teks`).
pub fn integer_to_string(value: i64) -> (r: String)
    ensures
        r@ == signed_decimal(value as int),
{
    let mut r = String::new();
    if value < 0 {
        push_char(&mut r, '-');
        let magnitude: u64 = if value == i64::MIN {
            9223372036854775808u64
        } else {
            (-value) as u64
        };
        push_decimal(&mut r, magnitude);
    } else {
        push_decimal(&mut r, value as u64);
    }
    assert(r@ =~= signed_decimal(value as int));
    r
}

// ---------------------------------------------------------------------------
// Methods of texts
// ---------------------------------------------------------------------------

/// The characters of a text, one by one.
pub(crate) fn chars_of(s: &str) -> (r: Vec<char>)
    ensures
        r@ == s@,
{
    proof {
        broadcast use vstd::string::group_string_axioms;
    }
    let mut chars: Vec<char> = Vec::new();
    for c in it: s.chars()
        invariant
            chars@ == it.seq().take(it.index() as int),
    {
        chars.push(c);
        assert(chars@ =~= it.seq().take(it.index() as int + 1));
    }
    assert(chars@ =~= s@);
    chars
}

/// The number of characters of a text (`panjang`).
pub fn string_length(s: &str) -> (r: usize)
    ensures
        r == s@.len(),
{
    s.unicode_len()
}

/// The text with each character mapped to upper case by the Unicode case tables
/// (`str::to_uppercase`).
pub uninterp spec fn spec_to_uppercase(s: Seq<char>) -> Seq<char>;

/// The text with each character mapped to lower case by the Unicode case tables,
/// a final capital sigma becoming a final small sigma (`str::to_lowercase`).
pub uninterp spec fn spec_to_lowercase(s: Seq<char>) -> Seq<char>;

/// `str::to_uppercase`: the upper-case form of a text, which depends on the text
/// alone (the mapping is Unicode's, not a locale's). What the mapping is, is not
/// stated here.
#[verifier::external_body]
fn text_to_uppercase(s: &str) -> (r: String)
    ensures
        r@ == spec_to_uppercase(s@),
{
    s.to_uppercase()
}

/// `str::to_lowercase`: the lower-case form of a text, which depends on the text
/// alone. What the mapping is, is not stated here.
#[verifier::external_body]
fn text_to_lowercase(s: &str) -> (r: String)
    ensures
        r@ == spec_to_lowercase(s@),
{
    s.to_lowercase()
}

/// The text in upper case (`aksara_ageung`).
pub fn string_uppercase(s: &str) -> (r: String)
    ensures
        r@ == spec_to_uppercase(s@),
{
    text_to_uppercase(s)
}

/// The text in lower case (`aksara_alit`).
pub fn string_lowercase(s: &str) -> (r: String)
    ensures
        r@ == spec_to_lowercase(s@),
{
    text_to_lowercase(s)
}

/// Whether `p` occurs in `s` starting at position `i`.
pub open spec fn occurs_at(s: Seq<char>, p: Seq<char>, i: int) -> bool {
    0 <= i && i + p.len() <= s.len() && s.subrange(i, i + p.len()) == p
}

/// The first position at or after `from` where `p` occurs in `s`.
pub open spec fn first_occurrence(s: Seq<char>, p: Seq<char>, from: nat) -> Option<nat>
    decreases s.len() + 1 - from,
{
    if from + p.len() > s.len() {
        None
    } else if occurs_at(s, p, from as int) {
        Some(from)
    } else {
        first_occurrence(s, p, from + 1)
    }
}

proof fn lemma_first_occurrence(s: Seq<char>, p: Seq<char>, from: nat)
    ensures
        match first_occurrence(s, p, from) {
            Some(i) => from <= i && occurs_at(s, p, i as int) && forall|j: int|
                from <= j < i ==> !occurs_at(s, p, j),
            None => forall|j: int| from <= j ==> !occurs_at(s, p, j),
        },
    decreases s.len() + 1 - from,
{
    if from + p.len() <= s.len() && !occurs_at(s, p, from as int) {
        lemma_first_occurrence(s, p, from + 1);
    }
}

/// Whether `p` occurs in `s` at `i`.
fn matches_at(s: &Vec<char>, p: &Vec<char>, i: usize) -> (r: bool)
    requires
        i <= s@.len(),
    ensures
        r == occurs_at(s@, p@, i as int),
{
    if p.len() > s.len() - i {
        return false;
    }
    let mut k: usize = 0;
    while k < p.len()
        invariant
            i + p@.len() <= s@.len() <= usize::MAX,
            k <= p@.len(),
            forall|m: int| 0 <= m < k ==> s@[i + m] == p@[m],
        decreases p@.len() - k,
    {
        if s[i + k] != p[k] {
            assert(s@.subrange(i as int, i + p@.len())[k as int] != p@[k as int]);
            return false;
        }
        k += 1;
    }
    assert(s@.subrange(i as int, i + p@.len()) =~= p@);
    true
}

/// The first position at or after `from` where `p` occurs in `s`.
fn find_from(s: &Vec<char>, p: &Vec<char>, from: usize) -> (r: Option<usize>)
    requires
        from <= s@.len(),
    ensures
        r matches Some(i) ==> first_occurrence(s@, p@, from as nat) == Some(i as nat),
        r is None ==> first_occurrence(s@, p@, from as nat) is None,
{
    let mut i = from;
    while i < s.len()
        invariant
            from <= i <= s@.len(),
            first_occurrence(s@, p@, from as nat) == first_occurrence(s@, p@, i as nat),
        decreases s@.len() - i,
    {
        if p.len() > s.len() - i {
            return None;
        }
        if matches_at(s, p, i) {
            return Some(i);
        }
        i += 1;
    }
    if p.len() == 0 {
        assert(s@.subrange(i as int, i as int) =~= p@);
        Some(i)
    } else {
        None
    }
}

/// Whether `needle` occurs in `s` (`ngandung`); the empty text occurs everywhere.
pub fn string_contains(s: &str, needle: &str) -> (r: bool)
    ensures
        r == exists|i: int| occurs_at(s@, needle@, i),
{
    let sc = chars_of(s);
    let nc = chars_of(needle);
    let found = find_from(&sc, &nc, 0);
    proof {
        lemma_first_occurrence(s@, needle@, 0);
    }
    found.is_some()
}

/// The position, in characters, of the first occurrence of `needle` in `s`, or
/// `-1` when there is none (`posisi_ka`).
pub fn string_index_of(s: &str, needle: &str) -> (r: i64)
    requires
        s@.len() <= i64::MAX,
    ensures
        r == (match first_occurrence(s@, needle@, 0) {
            Some(i) => i as int,
            None => -1,
        }),
        r >= 0 ==> occurs_at(s@, needle@, r as int) && forall|j: int| 0 <= j < r ==> !occurs_at(s@, needle@, j),
        r < 0 ==> forall|j: int| !occurs_at(s@, needle@, j),
{
    let sc = chars_of(s);
    let nc = chars_of(needle);
    proof {
        lemma_first_occurrence(s@, needle@, 0);
    }
    match find_from(&sc, &nc, 0) {
        Some(i) => i as i64,
        None => -1,
    }
}

/// The character at `index`, as a text of one character (`hurup_ka`).
pub fn string_char_at(s: &str, index: i64) -> (r: Result<String, String>)
    ensures
        r is Ok <==> 0 <= index < s@.len(),
        r matches Ok(c) ==> c@ == seq![s@[index as int]],
        r matches Err(m) ==> m@ == (if index < 0 {
            "Indeks 'hurup_ka' teu kenging negatif."@
        } else {
            "Indeks 'hurup_ka' di luar wates teks."@
        }),
{
    if index < 0 {
        return Err(text("Indeks 'hurup_ka' teu kenging negatif."));
    }
    let sc = chars_of(s);
    if index as u64 >= sc.len() as u64 {
        return Err(text("Indeks 'hurup_ka' di luar wates teks."));
    }
    let i = index as usize;
    let mut r = String::new();
    push_char(&mut r, sc[i]);
    assert(r@ =~= seq![s@[index as int]]);
    Ok(r)
}

/// The characters of `s` in reverse order (`balikkeun`).
pub fn string_reverse(s: &str) -> (r: String)
    ensures
        r@ == s@.reverse(),
{
    let sc = chars_of(s);
    let mut r = String::new();
    let mut i = sc.len();
    while i > 0
        invariant
            sc@ == s@,
            i <= sc@.len(),
            r@ == s@.subrange(i as int, s@.len() as int).reverse(),
        decreases i,
    {
        let ghost before = r@;
        push_char(&mut r, sc[i - 1]);
        assert(r@ =~= s@.subrange(i - 1, s@.len() as int).reverse());
        i -= 1;
    }
    assert(s@.subrange(0, s@.len() as int) =~= s@);
    r
}

/// The characters of `s` from `start` up to, not including, `end` (`potong`).
pub fn string_slice(s: &str, start: i64, end: i64) -> (r: Result<String, String>)
    ensures
        r is Ok <==> 0 <= start <= end <= s@.len(),
        r matches Ok(t) ==> t@ == s@.subrange(start as int, end as int),
        r matches Err(m) ==> m@ == "Indeks 'potong' teu sah atanapi di luar wates teks."@,
{
    let sc = chars_of(s);
    if start < 0 || end < 0 || start as u64 > sc.len() as u64 || end as u64 > sc.len() as u64 || start > end {
        return Err(text("Indeks 'potong' teu sah atanapi di luar wates teks."));
    }
    Ok(string_of(&sc, start as usize, end as usize))
}

/// `s` from position `i` on with each occurrence of the non-empty `p` replaced by
/// `q`, the occurrences taken from the left without overlapping.
pub open spec fn replace_from(s: Seq<char>, p: Seq<char>, q: Seq<char>, i: nat) -> Seq<char>
    decreases s.len() - i,
{
    if i >= s.len() {
        seq![]
    } else if p.len() > 0 && occurs_at(s, p, i as int) {
        q + replace_from(s, p, q, i + p.len())
    } else {
        seq![s[i as int]] + replace_from(s, p, q, i + 1)
    }
}

/// `s` from position `i` on with `q` before each character and at the end: what
/// replacing the empty text gives.
pub open spec fn interleave_from(s: Seq<char>, q: Seq<char>, i: nat) -> Seq<char>
    decreases s.len() - i,
{
    if i >= s.len() {
        q
    } else {
        q + seq![s[i as int]] + interleave_from(s, q, i + 1)
    }
}

/// `s` with every occurrence of `p` replaced by `q` (`gentos`).
pub open spec fn replaced(s: Seq<char>, p: Seq<char>, q: Seq<char>) -> Seq<char> {
    if p.len() == 0 {
        interleave_from(s, q, 0)
    } else {
        replace_from(s, p, q, 0)
    }
}

/// `s` with every occurrence of `from` replaced by `to` (`gentos`).
pub fn string_replace(s: &str, from: &str, to: &str) -> (r: String)
    ensures
        r@ == replaced(s@, from@, to@),
{
    let sc = chars_of(s);
    let pc = chars_of(from);
    let mut r = String::new();
    let mut i: usize = 0;
    if pc.len() == 0 {
        while i < sc.len()
            invariant
                sc@ == s@,
                pc@ == from@,
                from@.len() == 0,
                i <= sc@.len(),
                r@ + interleave_from(s@, to@, i as nat) == replaced(s@, from@, to@),
            decreases sc@.len() - i,
        {
            let ghost before = r@;
            push_text(&mut r, to);
            push_char(&mut r, sc[i]);
            assert(before + interleave_from(s@, to@, i as nat) =~= r@ + interleave_from(s@, to@, (i + 1) as nat));
            i += 1;
        }
        push_text(&mut r, to);
    } else {
        while i < sc.len()
            invariant
                sc@ == s@,
                pc@ == from@,
                from@.len() > 0,
                i <= sc@.len(),
                r@ + replace_from(s@, from@, to@, i as nat) == replaced(s@, from@, to@),
            decreases sc@.len() - i,
        {
            let ghost before = r@;
            if matches_at(&sc, &pc, i) {
                push_text(&mut r, to);
                assert(before + replace_from(s@, from@, to@, i as nat) =~= r@ + replace_from(
                    s@,
                    from@,
                    to@,
                    (i + from@.len()) as nat,
                ));
                i += pc.len();
            } else {
                push_char(&mut r, sc[i]);
                assert(before + replace_from(s@, from@, to@, i as nat) =~= r@ + replace_from(
                    s@,
                    from@,
                    to@,
                    (i + 1) as nat,
                ));
                i += 1;
            }
        }
    }
    assert(r@ =~= replaced(s@, from@, to@));
    r
}

/// The pieces of `s` between the occurrences of the non-empty `p`, the current
/// piece having started at `start` and the search being at `i`.
pub open spec fn split_from(s: Seq<char>, p: Seq<char>, start: nat, i: nat) -> Seq<Seq<char>>
    decreases s.len() - i,
{
    if i + p.len() > s.len() || p.len() == 0 {
        seq![s.subrange(start as int, s.len() as int)]
    } else if occurs_at(s, p, i as int) {
        seq![s.subrange(start as int, i as int)] + split_from(s, p, i + p.len(), i + p.len())
    } else {
        split_from(s, p, start, i + 1)
    }
}

/// The pieces of `s` cut at each occurrence of `p` (`pisahkeun`). Cutting at the
/// empty text gives an empty piece, each character as a piece, and an empty piece.
pub open spec fn pieces(s: Seq<char>, p: Seq<char>) -> Seq<Seq<char>> {
    if p.len() == 0 {
        seq![seq![]] + Seq::new(s.len(), |i: int| seq![s[i]]) + seq![seq![]]
    } else {
        split_from(s, p, 0, 0)
    }
}

/// The texts of a list of strings.
pub open spec fn texts_view(v: Seq<String>) -> Seq<Seq<char>> {
    v.map_values(|x: String| x@)
}

/// `s` cut at each occurrence of `delimiter` (`pisahkeun`).
pub fn string_split(s: &str, delimiter: &str) -> (r: Vec<String>)
    ensures
        texts_view(r@) == pieces(s@, delimiter@),
{
    let sc = chars_of(s);
    let pc = chars_of(delimiter);
    let mut r: Vec<String> = Vec::new();
    if pc.len() == 0 {
        r.push(String::new());
        let mut i: usize = 0;
        while i < sc.len()
            invariant
                sc@ == s@,
                i <= sc@.len(),
                texts_view(r@) == seq![Seq::<char>::empty()] + Seq::new(i as nat, |k: int| seq![s@[k]]),
            decreases sc@.len() - i,
        {
            let ghost before = texts_view(r@);
            r.push(string_of(&sc, i, i + 1));
            assert(sc@.subrange(i as int, i + 1) =~= seq![s@[i as int]]);
            assert(texts_view(r@) =~= before.push(seq![s@[i as int]]));
            assert(texts_view(r@) =~= seq![Seq::<char>::empty()] + Seq::new((i + 1) as nat, |k: int| seq![s@[k]]));
            i += 1;
        }
        r.push(String::new());
        assert(texts_view(r@) =~= pieces(s@, delimiter@));
    } else {
        let mut start: usize = 0;
        let mut i: usize = 0;
        while i < sc.len() && pc.len() <= sc.len() - i
            invariant
                sc@ == s@,
                pc@ == delimiter@,
                delimiter@.len() > 0,
                start <= i <= sc@.len(),
                texts_view(r@) + split_from(s@, delimiter@, start as nat, i as nat) == pieces(s@, delimiter@),
            decreases sc@.len() - i,
        {
            if matches_at(&sc, &pc, i) {
                let ghost before = texts_view(r@);
                let ghost (s0, i0) = (start as nat, i as nat);
                let piece = string_of(&sc, start, i);
                r.push(piece);
                assert(texts_view(r@) =~= before.push(s@.subrange(start as int, i as int)));
                i += pc.len();
                start = i;
                assert(split_from(s@, delimiter@, s0, i0) == seq![s@.subrange(s0 as int, i0 as int)] + split_from(
                    s@,
                    delimiter@,
                    start as nat,
                    i as nat,
                ));
                assert(texts_view(r@) + split_from(s@, delimiter@, start as nat, i as nat) =~= before
                    + split_from(s@, delimiter@, s0, i0));
            } else {
                i += 1;
            }
        }
        let ghost before = texts_view(r@);
        r.push(string_of(&sc, start, sc.len()));
        assert(texts_view(r@) =~= before.push(s@.subrange(start as int, s@.len() as int)));
        assert(texts_view(r@) =~= pieces(s@, delimiter@));
    }
    r
}

/// Whether a character has the Unicode `White_Space` property: the tab, line
/// feed, vertical tab, form feed and carriage return, the space, U+0085, U+00A0,
/// U+1680, U+2000 to U+200A, U+2028, U+2029, U+202F, U+205F and U+3000.
pub open spec fn is_white_space(c: char) -> bool {
    ||| '\u{9}' <= c <= '\u{d}'
    ||| c == ' '
    ||| c == '\u{85}'
    ||| c == '\u{a0}'
    ||| c == '\u{1680}'
    ||| '\u{2000}' <= c <= '\u{200a}'
    ||| c == '\u{2028}'
    ||| c == '\u{2029}'
    ||| c == '\u{202f}'
    ||| c == '\u{205f}'
    ||| c == '\u{3000}'
}

/// `char::is_whitespace`: by its documentation, true exactly for the characters
/// with the Unicode `White_Space` property, which are those listed above.
#[verifier::external_body]
fn char_is_whitespace(c: char) -> (r: bool)
    ensures
        r == is_white_space(c),
{
    c.is_whitespace()
}

/// The first position at or after `i` that does not hold white space.
pub open spec fn trim_start_at(s: Seq<char>, i: nat) -> nat
    decreases s.len() - i,
{
    if i < s.len() && is_white_space(s[i as int]) {
        trim_start_at(s, i + 1)
    } else {
        i
    }
}

/// The end of `s[lo..j]` once the white space at its end is dropped.
pub open spec fn trim_end_at(s: Seq<char>, lo: nat, j: nat) -> nat
    decreases j,
{
    if j > lo && is_white_space(s[j - 1]) {
        trim_end_at(s, lo, (j - 1) as nat)
    } else {
        j
    }
}

/// `s` without the white space at its start and at its end.
pub open spec fn trimmed(s: Seq<char>) -> Seq<char> {
    let a = trim_start_at(s, 0);
    s.subrange(a as int, trim_end_at(s, a, s.len()) as int)
}

/// The bounds of `s` once trimmed.
fn trim_bounds(sc: &Vec<char>) -> (r: (usize, usize))
    ensures
        r.0 == trim_start_at(sc@, 0),
        r.1 == trim_end_at(sc@, r.0 as nat, sc@.len()),
        r.0 <= r.1 <= sc@.len(),
{
    let mut a: usize = 0;
    while a < sc.len() && char_is_whitespace(sc[a])
        invariant
            a <= sc@.len(),
            trim_start_at(sc@, 0) == trim_start_at(sc@, a as nat),
        decreases sc@.len() - a,
    {
        a += 1;
    }
    let mut b: usize = sc.len();
    while b > a && char_is_whitespace(sc[b - 1])
        invariant
            a <= b <= sc@.len(),
            trim_end_at(sc@, a as nat, sc@.len()) == trim_end_at(sc@, a as nat, b as nat),
        decreases b,
    {
        b -= 1;
    }
    (a, b)
}

/// `s` without the white space at its start and at its end (`rapikeun`).
pub fn string_trim(s: &str) -> (r: String)
    ensures
        r@ == trimmed(s@),
{
    let sc = chars_of(s);
    let (a, b) = trim_bounds(&sc);
    string_of(&sc, a, b)
}

/// Whether every character of `t` is a decimal digit.
pub open spec fn all_digits(t: Seq<char>) -> bool {
    forall|k: int| 0 <= k < t.len() ==> is_digit(#[trigger] t[k])
}

/// The integer that `t` writes, as `i64::from_str` reads it: an optional sign and
/// at least one decimal digit, with a value that fits in 64 bits.
pub open spec fn parsed_integer(t: Seq<char>) -> Option<int> {
    if t.len() == 0 {
        None
    } else {
        let digits = if t[0] == '-' || t[0] == '+' { t.drop_first() } else { t };
        if digits.len() == 0 || !all_digits(digits) {
            None
        } else {
            let v = if t[0] == '-' { -(decimal_value(digits) as int) } else { decimal_value(digits) as int };
            if i64::MIN <= v <= i64::MAX {
                Some(v)
            } else {
                None
            }
        }
    }
}

/// The integer written in `sc[a..b]`, if it is one.
fn parse_signed(sc: &Vec<char>, a: usize, b: usize) -> (r: Option<i64>)
    requires
        a <= b <= sc@.len(),
    ensures
        r matches Some(v) ==> parsed_integer(sc@.subrange(a as int, b as int)) == Some(v as int),
        r is None ==> parsed_integer(sc@.subrange(a as int, b as int)) is None,
{
    let ghost t = sc@.subrange(a as int, b as int);
    if a == b {
        return None;
    }
    let negative = sc[a] == '-';
    let start = if sc[a] == '-' || sc[a] == '+' { a + 1 } else { a };
    let ghost digits = sc@.subrange(start as int, b as int);
    assert(digits =~= (if t[0] == '-' || t[0] == '+' { t.drop_first() } else { t }));
    if start == b {
        return None;
    }
    let mut acc: i128 = 0;
    let mut i = start;
    assert(digits.subrange(0, 0) =~= Seq::<char>::empty());
    while i < b
        invariant
            a <= start < b <= sc@.len(),
            start <= i <= b,
            t == sc@.subrange(a as int, b as int),
            t.len() > 0,
            negative == (t[0] == '-'),
            digits == (if t[0] == '-' || t[0] == '+' { t.drop_first() } else { t }),
            digits == sc@.subrange(start as int, b as int),
            forall|k: int| start <= k < i ==> is_digit(#[trigger] sc@[k]),
            0 <= acc <= 9223372036854775808i128,
            acc == decimal_value(digits.subrange(0, i - start)),
        decreases b - i,
    {
        let c = sc[i];
        if !('0' <= c && c <= '9') {
            assert(!is_digit(digits[i - start]));
            return None;
        }
        let d: i128 = (c as u32 - '0' as u32) as i128;
        let w: i128 = acc * 10 + d;
        assert(digits.subrange(0, i - start + 1).drop_last() =~= digits.subrange(0, i - start));
        assert(digits.subrange(0, i - start + 1).last() == c);
        if w > 9223372036854775808i128 {
            proof {
                lemma_decimal_value_mono(digits, i - start + 1, digits.len() as int);
                assert(digits.subrange(0, digits.len() as int) =~= digits);
            }
            return None;
        }
        acc = w;
        i += 1;
    }
    assert(digits.subrange(0, b - start) =~= digits);
    assert(all_digits(digits));
    if negative {
        Some((-acc) as i64)
    } else if acc > 9223372036854775807i128 {
        None
    } else {
        Some(acc as i64)
    }
}

/// The integer that the trimmed text writes (`janten_angka`).
pub fn string_to_integer(s: &str) -> (r: Result<i64, String>)
    ensures
        r matches Ok(v) ==> parsed_integer(trimmed(s@)) == Some(v as int),
        r matches Err(m) ==> parsed_integer(trimmed(s@)) is None && m@ == "Gagal ngarobih teks '"@ + s@
            + "' janten angka buleud."@,
{
    let sc = chars_of(s);
    let (a, b) = trim_bounds(&sc);
    match parse_signed(&sc, a, b) {
        Some(v) => Ok(v),
        None => {
            let mut m = String::new();
            push_text(&mut m, "Gagal ngarobih teks '");
            push_text(&mut m, s);
            push_text(&mut m, "' janten angka buleud.");
            Err(m)
        },
    }
}

} // verus!

verus! {

// ---------------------------------------------------------------------------
// Laws of the text and integer methods
// ---------------------------------------------------------------------------

proof fn lemma_digit_char(d: nat)
    requires
        d < 10,
    ensures
        is_digit(digit_char(d)),
        digit_value(digit_char(d)) == d,
{
}

proof fn lemma_decimal_digits(n: nat)
    ensures
        decimal(n).len() > 0,
        all_digits(decimal(n)),
        decimal_value(decimal(n)) == n,
    decreases n,
{
    let t = decimal(n);
    if n < 10 {
        lemma_digit_char(n);
        assert(t == seq![digit_char(n)]);
        assert(t.drop_last() =~= Seq::<char>::empty());
        assert(decimal_value(t.drop_last()) == 0);
        assert(decimal_value(t) == decimal_value(t.drop_last()) * 10 + digit_value(t.last()));
    } else {
        lemma_decimal_digits(n / 10);
        lemma_digit_char(n % 10);
        assert(t == decimal(n / 10).push(digit_char(n % 10)));
        assert(t.drop_last() =~= decimal(n / 10));
        assert(t.last() == digit_char(n % 10));
        assert(decimal_value(t) == decimal_value(t.drop_last()) * 10 + digit_value(t.last()));
        assert(n == (n / 10) * 10 + n % 10);
        assert forall|k: int| 0 <= k < t.len() implies is_digit(#[trigger] t[k]) by {
            if k < t.len() - 1 {
                assert(t[k] == decimal(n / 10)[k]);
            }
        }
    }
}

/// A text that starts and ends with something other than white space is its
/// own trimmed form.
proof fn lemma_trimmed_unchanged(t: Seq<char>)
    requires
        t.len() > 0,
        !is_white_space(t[0]),
        !is_white_space(t.last()),
    ensures
        trimmed(t) == t,
{
    assert(trim_start_at(t, 0) == 0);
    assert(trim_end_at(t, 0, t.len()) == t.len());
    assert(t.subrange(0, t.len() as int) =~= t);
}

/// Reading back the text of an integer gives the integer: `janten_angka`
/// (`string_to_integer`) undoes `janten_teks` (`integer_to_string`) on every
/// 64-bit integer.
pub proof fn lemma_integer_text_round_trip(v: i64)
    ensures
        parsed_integer(trimmed(signed_decimal(v as int))) == Some(v as int),
{
    let t = signed_decimal(v as int);
    let m: nat = if v < 0 { (-v) as nat } else { v as nat };
    lemma_decimal_digits(m);
    let d = decimal(m);
    if v < 0 {
        assert(t == seq!['-'] + d);
        assert(t.drop_first() =~= d);
        assert(t.last() == d.last());
    } else {
        assert(t == d);
    }
    assert(is_digit(d.last()));
    assert(is_digit(d[0]));
    lemma_trimmed_unchanged(t);
}

/// `posisi_ka` finds a position exactly when `ngandung` answers yes.
pub proof fn lemma_index_of_agrees_with_contains(s: Seq<char>, p: Seq<char>)
    ensures
        (first_occurrence(s, p, 0) is Some) == (exists|i: int| occurs_at(s, p, i)),
{
    lemma_first_occurrence(s, p, 0);
    if let Some(i) = first_occurrence(s, p, 0) {
        assert(occurs_at(s, p, i as int));
    }
}

/// The pieces `ps` put back together with `d` between each two of them.
pub open spec fn joined(ps: Seq<Seq<char>>, d: Seq<char>) -> Seq<char>
    decreases ps.len(),
{
    if ps.len() == 0 {
        seq![]
    } else if ps.len() == 1 {
        ps[0]
    } else {
        ps[0] + d + joined(ps.drop_first(), d)
    }
}

proof fn lemma_split_from_joined(s: Seq<char>, p: Seq<char>, start: nat, i: nat)
    requires
        p.len() > 0,
        start <= i <= s.len(),
    ensures
        split_from(s, p, start, i).len() > 0,
        joined(split_from(s, p, start, i), p) == s.subrange(start as int, s.len() as int),
    decreases s.len() - i,
{
    if i + p.len() > s.len() {
    } else if occurs_at(s, p, i as int) {
        let next = (i + p.len()) as nat;
        lemma_split_from_joined(s, p, next, next);
        let rest = split_from(s, p, next, next);
        let all = split_from(s, p, start, i);
        assert(all == seq![s.subrange(start as int, i as int)] + rest);
        assert(all.drop_first() =~= rest);
        assert(s.subrange(start as int, i as int) + p + s.subrange(next as int, s.len() as int) =~= s.subrange(
            start as int,
            s.len() as int,
        ));
    } else {
        lemma_split_from_joined(s, p, start, i + 1);
    }
}

/// The single characters of `s` from `k` on, followed by an empty piece.
spec fn char_pieces_from(s: Seq<char>, k: nat) -> Seq<Seq<char>> {
    Seq::new((s.len() - k) as nat, |j: int| seq![s[k + j]]) + seq![Seq::<char>::empty()]
}

proof fn lemma_char_pieces_joined(s: Seq<char>, k: nat)
    requires
        k <= s.len(),
    ensures
        joined(char_pieces_from(s, k), Seq::<char>::empty()) == s.subrange(k as int, s.len() as int),
    decreases s.len() - k,
{
    let ps = char_pieces_from(s, k);
    if k == s.len() {
        assert(ps =~= seq![Seq::<char>::empty()]);
        assert(s.subrange(k as int, s.len() as int) =~= Seq::<char>::empty());
    } else {
        lemma_char_pieces_joined(s, k + 1);
        assert(ps.drop_first() =~= char_pieces_from(s, k + 1));
        assert(ps[0] == seq![s[k as int]]);
        assert(seq![s[k as int]] + Seq::<char>::empty() + s.subrange(k + 1int, s.len() as int) =~= s.subrange(
            k as int,
            s.len() as int,
        ));
    }
}

/// Putting the pieces of a split back together with the delimiter gives back the
/// text: `pisahkeun` loses nothing, whatever the delimiter.
pub proof fn lemma_split_then_join(s: Seq<char>, d: Seq<char>)
    ensures
        joined(pieces(s, d), d) == s,
{
    if d.len() == 0 {
        lemma_char_pieces_joined(s, 0);
        let ps = pieces(s, d);
        assert(ps.drop_first() =~= char_pieces_from(s, 0));
        assert(ps.len() >= 2);
        assert(s.subrange(0, s.len() as int) =~= s);
        assert(Seq::<char>::empty() + d + s =~= s);
    } else {
        lemma_split_from_joined(s, d, 0, 0);
        assert(s.subrange(0, s.len() as int) =~= s);
    }
}

} // verus!

verus! {

// ---------------------------------------------------------------------------
// Arithmetic on integers
// ---------------------------------------------------------------------------

/// The arithmetic operators of the language.
#[derive(Debug, Clone, Copy, PartialEq, Eq)]
pub enum IntegerOp {
    Add,
    Subtract,
    Multiply,
    Divide,
    Modulo,
}

pub open spec fn magnitude(x: int) -> int {
    if x < 0 { -x } else { x }
}

/// The quotient of `x` by `d` rounded toward zero.
pub open spec fn quotient_toward_zero(x: int, d: int) -> int {
    if x == 0 {
        0
    } else if (x > 0) == (d > 0) {
        magnitude(x) / magnitude(d)
    } else {
        -(magnitude(x) / magnitude(d))
    }
}

/// The remainder of `x` by `d` that has the sign of `x`.
pub open spec fn remainder_toward_zero(x: int, d: int) -> int {
    if x >= 0 {
        magnitude(x) % magnitude(d)
    } else {
        -(magnitude(x) % magnitude(d))
    }
}

/// Whether an operation on two 64-bit integers has a 64-bit result; where it has
/// not, the machine stops with an overflow instead of giving one.
pub open spec fn integer_op_fits(op: IntegerOp, l: i64, r: i64) -> bool {
    match op {
        IntegerOp::Add => i64::MIN <= l + r <= i64::MAX,
        IntegerOp::Subtract => i64::MIN <= l - r <= i64::MAX,
        IntegerOp::Multiply => i64::MIN <= l * r <= i64::MAX,
        IntegerOp::Divide | IntegerOp::Modulo => !(l == i64::MIN && r == -1),
    }
}

/// The value of `l op r` on integers, or the error for a division by zero.
pub open spec fn integer_op_result(op: IntegerOp, l: int, r: int) -> Result<int, Seq<char>> {
    match op {
        IntegerOp::Add => Ok(l + r),
        IntegerOp::Subtract => Ok(l - r),
        IntegerOp::Multiply => Ok(l * r),
        IntegerOp::Divide => if r == 0 {
            Err("Teu tiasa ngabagi ku enol."@)
        } else {
            Ok(quotient_toward_zero(l, r))
        },
        IntegerOp::Modulo => if r == 0 {
            Err("Teu tiasa ngitung sesa ngabagi ku enol."@)
        } else {
            Ok(remainder_toward_zero(l, r))
        },
    }
}

/// `l op r` on two integers of the language.
pub fn integer_binary(op: IntegerOp, l: i64, r: i64) -> (res: Result<i64, String>)
    requires
        integer_op_fits(op, l, r),
    ensures
        match res {
            Ok(v) => integer_op_result(op, l as int, r as int) == Ok::<int, Seq<char>>(v as int),
            Err(m) => integer_op_result(op, l as int, r as int) == Err::<int, Seq<char>>(m@),
        },
{
    match op {
        IntegerOp::Add => Ok(l + r),
        IntegerOp::Subtract => Ok(l - r),
        IntegerOp::Multiply => Ok(l * r),
        IntegerOp::Divide => {
            proof {
                if r != 0 {
                    let (x, d) = (magnitude(l as int), magnitude(r as int));
                    assert(0 <= x / d <= x) by (nonlinear_arith)
                        requires
                            x >= 0,
                            d >= 1,
                    ;
                    if d >= 2 {
                        assert(x / d * 2 <= x) by (nonlinear_arith)
                            requires
                                x >= 0,
                                d >= 2,
                        ;
                    }
                }
            }
            match l.checked_div(r) {
                Some(q) => Ok(q),
                None => Err(text("Teu tiasa ngabagi ku enol.")),
            }
        },
        IntegerOp::Modulo => {
            proof {
                if r != 0 {
                    let (x, d) = (magnitude(l as int), magnitude(r as int));
                    assert(0 <= x % d < d) by (nonlinear_arith)
                        requires
                            x >= 0,
                            d >= 1,
                    ;
                }
            }
            match l.checked_rem(r) {
                Some(q) => Ok(q),
                None => Err(text("Teu tiasa ngitung sesa ngabagi ku enol.")),
            }
        },
    }
}

} // verus!

verus! {

// ---------------------------------------------------------------------------
// Slices of lists
// ---------------------------------------------------------------------------

/// The range that `potong(start, end)` takes from a list of `len` elements, or
/// the error, checked in this order: the start is an integer (`start` is `None`
/// when it is not) and not negative, the end likewise, and the range lies inside
/// the list.
pub open spec fn list_slice_rule(start: Option<int>, end: Option<int>, len: nat) -> Result<(nat, nat), Seq<char>> {
    match start {
        None => Err("Argumen 'awal' kedah mangrupa angka buleud."@),
        Some(a) => if a < 0 {
            Err("Indeks awal teu kenging negatif."@)
        } else {
            match end {
                None => Err("Argumen 'akhir' kedah mangrupa angka buleud."@),
                Some(b) => if b < 0 {
                    Err("Indeks akhir teu kenging negatif."@)
                } else if a > len || b > len || a > b {
                    Err("Indeks 'potong' teu sah atanapi di luar wates daptar."@)
                } else {
                    Ok((a as nat, b as nat))
                },
            }
        },
    }
}

pub open spec fn opt_int(v: Option<i64>) -> Option<int> {
    match v {
        Some(i) => Some(i as int),
        None => None,
    }
}

/// The range that `potong(start, end)` takes from a list of `len` elements, or
/// the error.
pub fn list_slice_range(start: Option<i64>, end: Option<i64>, len: usize) -> (res: Result<(usize, usize), String>)
    ensures
        match res {
            Ok((a, b)) => list_slice_rule(opt_int(start), opt_int(end), len as nat) == Ok::<(nat, nat), Seq<char>>(
                (a as nat, b as nat),
            ),
            Err(m) => list_slice_rule(opt_int(start), opt_int(end), len as nat) == Err::<(nat, nat), Seq<char>>(
                m@,
            ),
        },
{
    let a = match start {
        None => return Err(text("Argumen 'awal' kedah mangrupa angka buleud.")),
        Some(a) => a,
    };
    if a < 0 {
        return Err(text("Indeks awal teu kenging negatif."));
    }
    let b = match end {
        None => return Err(text("Argumen 'akhir' kedah mangrupa angka buleud.")),
        Some(b) => b,
    };
    if b < 0 {
        return Err(text("Indeks akhir teu kenging negatif."));
    }
    if a as u64 > len as u64 || b as u64 > len as u64 || a > b {
        return Err(text("Indeks 'potong' teu sah atanapi di luar wates daptar."));
    }
    Ok((a as usize, b as usize))
}

} // verus!

verus! {

/// Integer arithmetic is arithmetic: `+ - *` give the sum, difference and
/// product; division by a non-zero `r` gives the quotient `q` and remainder
/// `m` with `q * r + m == l`, `m` smaller than `r` in size and never of the
/// opposite sign to `l` (the quotient is rounded toward zero); division by zero
/// is an error either way.
pub proof fn lemma_integer_arithmetic(l: int, r: int)
    ensures
        integer_op_result(IntegerOp::Add, l, r) == Ok::<int, Seq<char>>(l + r),
        integer_op_result(IntegerOp::Subtract, l, r) == Ok::<int, Seq<char>>(l - r),
        integer_op_result(IntegerOp::Multiply, l, r) == Ok::<int, Seq<char>>(l * r),
        r == 0 ==> integer_op_result(IntegerOp::Divide, l, r) is Err && integer_op_result(IntegerOp::Modulo, l, r) is Err,
        r != 0 ==> (integer_op_result(IntegerOp::Divide, l, r) matches Ok(q) && integer_op_result(
            IntegerOp::Modulo,
            l,
            r,
        ) matches Ok(m) && q * r + m == l && magnitude(m) < magnitude(r) && (l >= 0 ==> m >= 0) && (l <= 0 ==> m
            <= 0)),
{
    if r != 0 {
        let x = magnitude(l);
        let d = magnitude(r);
        let q0 = x / d;
        let m0 = x % d;
        assert(q0 * d + m0 == x && 0 <= m0 < d) by (nonlinear_arith)
            requires
                d > 0,
                x >= 0,
                q0 == x / d,
                m0 == x % d,
        ;
        let q = quotient_toward_zero(l, r);
        let m = remainder_toward_zero(l, r);
        if l == 0 {
            assert(x == 0);
            assert(q0 == 0 && m0 == 0) by (nonlinear_arith)
                requires
                    q0 * d + m0 == x,
                    0 <= m0 < d,
                    x == 0,
                    d > 0,
                    q0 == x / d,
            ;
            assert(q * r + m == l);
        } else if l > 0 && r > 0 {
            assert(q * r + m == l);
        } else if l < 0 && r < 0 {
            assert(q == q0 && m == -m0);
            assert(q0 * r == -(q0 * d)) by (nonlinear_arith)
                requires
                    d == -r,
            ;
        } else if l < 0 {
            assert(q == -q0 && m == -m0 && d == r);
            assert((-q0) * r == -(q0 * d)) by (nonlinear_arith)
                requires
                    d == r,
            ;
        } else {
            assert(q == -q0 && m == m0 && d == -r);
            assert((-q0) * r == q0 * d) by (nonlinear_arith)
                requires
                    d == -r,
            ;
        }
    }
}

} // verus!

verus! {

proof fn lemma_replace_self_from(s: Seq<char>, p: Seq<char>, i: nat)
    requires
        p.len() > 0,
        i <= s.len(),
    ensures
        replace_from(s, p, p, i) == s.subrange(i as int, s.len() as int),
    decreases s.len() - i,
{
    if i < s.len() {
        if occurs_at(s, p, i as int) {
            lemma_replace_self_from(s, p, i + p.len());
            assert(p + s.subrange((i + p.len()) as int, s.len() as int) =~= s.subrange(i as int, s.len() as int));
        } else {
            lemma_replace_self_from(s, p, i + 1);
            assert(seq![s[i as int]] + s.subrange(i + 1int, s.len() as int) =~= s.subrange(i as int, s.len() as int));
        }
    } else {
        assert(s.subrange(i as int, s.len() as int) =~= Seq::<char>::empty());
    }
}

proof fn lemma_interleave_empty_from(s: Seq<char>, i: nat)
    requires
        i <= s.len(),
    ensures
        interleave_from(s, Seq::<char>::empty(), i) == s.subrange(i as int, s.len() as int),
    decreases s.len() - i,
{
    if i < s.len() {
        lemma_interleave_empty_from(s, i + 1);
        assert(Seq::<char>::empty() + seq![s[i as int]] + s.subrange(i + 1int, s.len() as int) =~= s.subrange(
            i as int,
            s.len() as int,
        ));
    } else {
        assert(s.subrange(i as int, s.len() as int) =~= Seq::<char>::empty());
    }
}

/// Replacing a text by itself changes nothing (`gentos`), whatever the text,
/// the empty text included.
pub proof fn lemma_replace_by_itself(s: Seq<char>, p: Seq<char>)
    ensures
        replaced(s, p, p) == s,
{
    if p.len() == 0 {
        lemma_interleave_empty_from(s, 0);
        assert(p =~= Seq::<char>::empty());
    } else {
        lemma_replace_self_from(s, p, 0);
    }
    assert(s.subrange(0, s.len() as int) =~= s);
}

/// Replacing a text that does not occur changes nothing.
pub proof fn lemma_replace_absent(s: Seq<char>, p: Seq<char>, q: Seq<char>)
    requires
        p.len() > 0,
        forall|i: int| !occurs_at(s, p, i),
    ensures
        replaced(s, p, q) == s,
{
    lemma_replace_absent_from(s, p, q, 0);
    assert(s.subrange(0, s.len() as int) =~= s);
}

proof fn lemma_replace_absent_from(s: Seq<char>, p: Seq<char>, q: Seq<char>, i: nat)
    requires
        p.len() > 0,
        i <= s.len(),
        forall|j: int| !occurs_at(s, p, j),
    ensures
        replace_from(s, p, q, i) == s.subrange(i as int, s.len() as int),
    decreases s.len() - i,
{
    if i < s.len() {
        assert(!occurs_at(s, p, i as int));
        lemma_replace_absent_from(s, p, q, i + 1);
        assert(seq![s[i as int]] + s.subrange(i + 1int, s.len() as int) =~= s.subrange(i as int, s.len() as int));
    } else {
        assert(s.subrange(i as int, s.len() as int) =~= Seq::<char>::empty());
    }
}

proof fn lemma_trim_start(s: Seq<char>, i: nat)
    requires
        i <= s.len(),
    ensures
        i <= trim_start_at(s, i) <= s.len(),
        forall|k: int| i <= k < trim_start_at(s, i) ==> is_white_space(#[trigger] s[k]),
        trim_start_at(s, i) < s.len() ==> !is_white_space(s[trim_start_at(s, i) as int]),
    decreases s.len() - i,
{
    if i < s.len() && is_white_space(s[i as int]) {
        lemma_trim_start(s, i + 1);
    }
}

proof fn lemma_trim_end(s: Seq<char>, lo: nat, j: nat)
    requires
        lo <= j <= s.len(),
    ensures
        lo <= trim_end_at(s, lo, j) <= j,
        forall|k: int| trim_end_at(s, lo, j) <= k < j ==> is_white_space(#[trigger] s[k]),
        trim_end_at(s, lo, j) > lo ==> !is_white_space(s[trim_end_at(s, lo, j) - 1]),
    decreases j,
{
    if j > lo && is_white_space(s[j - 1]) {
        lemma_trim_end(s, lo, (j - 1) as nat);
    }
}

/// Trimming (`rapikeun`) removes white space at both ends and nothing else: the
/// result is a piece `s[a..b]` of the text, everything before `a` and after `b`
/// is white space, and the result neither starts nor ends with white space.
pub proof fn lemma_trim_removes_only_outer_space(s: Seq<char>)
    ensures
        exists|a: int, b: int|
            0 <= a <= b <= s.len() && #[trigger] s.subrange(a, b) == trimmed(s) && (forall|k: int|
                0 <= k < a ==> is_white_space(#[trigger] s[k])) && (forall|k: int|
                b <= k < s.len() ==> is_white_space(#[trigger] s[k])),
        trimmed(s).len() > 0 ==> !is_white_space(trimmed(s)[0]) && !is_white_space(trimmed(s).last()),
{
    lemma_trim_start(s, 0);
    let a = trim_start_at(s, 0);
    lemma_trim_end(s, a, s.len());
    let b = trim_end_at(s, a, s.len());
    if a == b {
        assert forall|k: int| b <= k < s.len() implies is_white_space(#[trigger] s[k]) by {
            if a < s.len() && k == a {
                assert(false);
            }
        }
    }
    assert(s.subrange(a as int, b as int) == trimmed(s));
    if b > a {
        assert(a < s.len());
    }
}

} // verus!
