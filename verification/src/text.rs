//! Building blocks for producing source text one piece at a time.
//!
//! Every function here appends to a `String` and says, in terms of the
//! string's view, exactly which characters it appended.

use vstd::prelude::*;
use vstd::string::*;

verus! {

/// Appends one character to `text`.
///
/// Wraps `String::push`, which std documents as appending the given `char`
/// to the end of the string. Nothing else about the string changes.
#[verifier::external_body]
pub(crate) fn push_char(text: &mut String, c: char)
    ensures
        final(text)@ == old(text)@.push(c),
{
    text.push(c)
}

/// The character that writes the decimal digit `d`.
pub open spec fn digit_char(d: int) -> char
    recommends
        0 <= d < 10,
{
    (('0' as int) + d) as char
}

/// The decimal digits of a natural number, most significant first, with no
/// leading zero except for zero itself.
pub open spec fn digits(m: nat) -> Seq<char>
    decreases m,
{
    if m < 10 {
        seq![digit_char(m as int)]
    } else {
        digits(m / 10).push(digit_char((m % 10) as int))
    }
}

/// The decimal rendering of an integer: a minus sign for negative numbers,
/// then the digits of the magnitude.
pub open spec fn decimal(n: int) -> Seq<char> {
    if n < 0 {
        seq!['-'] + digits((-n) as nat)
    } else {
        digits(n as nat)
    }
}

/// Appends the decimal digits of `m`.
pub fn push_digits(out: &mut String, m: u128)
    ensures
        final(out)@ == old(out)@ + digits(m as nat),
    decreases m,
{
    if m >= 10 {
        push_digits(out, m / 10);
    }
    let d: u8 = (m % 10) as u8;
    let c: char = (48u8 + d) as char;
    assert(c == digit_char((m % 10) as int));
    push_char(out, c);
    assert(out@ == old(out)@ + digits(m as nat));
}

/// Appends the decimal rendering of `n`.
pub fn push_decimal(out: &mut String, n: i128)
    ensures
        final(out)@ == old(out)@ + decimal(n as int),
{
    if n < 0 {
        push_char(out, '-');
        let magnitude: u128 = ((-(n + 1)) as u128) + 1;
        push_digits(out, magnitude);
        assert(out@ == old(out)@ + decimal(n as int));
    } else {
        push_digits(out, n as u128);
    }
}

/// Whether `c` is a decimal digit.
pub open spec fn is_digit(c: char) -> bool {
    '0' <= c <= '9'
}

/// The number that a run of decimal digits writes.
pub open spec fn digits_value(s: Seq<char>) -> int
    decreases s.len(),
{
    if s.len() == 0 {
        0
    } else {
        digits_value(s.drop_last()) * 10 + ((s.last() as int) - ('0' as int))
    }
}

/// Whether `s` holds decimal digits only.
pub open spec fn all_digits(s: Seq<char>) -> bool {
    forall|i: int| 0 <= i < s.len() ==> is_digit(#[trigger] s[i])
}

/// The integer that `text` writes, where it is one or more decimal digits
/// with or without a minus sign in front, and nothing else.
pub open spec fn whole_number(text: Seq<char>) -> Option<int> {
    if text.len() > 0 && text[0] == '-' {
        let rest = text.subrange(1, text.len() as int);
        if rest.len() > 0 && all_digits(rest) {
            Some(-digits_value(rest))
        } else {
            None
        }
    } else if text.len() > 0 && all_digits(text) {
        Some(digits_value(text))
    } else {
        None
    }
}

/// What is left of `text` without the minus sign that it may begin with.
pub open spec fn unsigned(text: Seq<char>) -> Seq<char> {
    if text.len() > 0 && text[0] == '-' {
        text.subrange(1, text.len() as int)
    } else {
        text
    }
}

/// Whether `text` writes a finite number in decimal: digits with at most
/// one point among them, a digit first and a digit last, and a minus sign
/// in front or none.
pub open spec fn is_decimal_text(text: Seq<char>) -> bool {
    let body = unsigned(text);
    &&& body.len() > 0
    &&& is_digit(body[0])
    &&& is_digit(body.last())
    &&& forall|i: int| 0 <= i < body.len() ==> is_digit(#[trigger] body[i]) || body[i] == '.'
    &&& forall|i: int, j: int|
        0 <= i < body.len() && 0 <= j < body.len() && #[trigger] body[i] == '.'
            && #[trigger] body[j] == '.' ==> i == j
}

/// Whether `text` is what a floating-point number displays as: a finite
/// number in decimal, or one of `NaN`, `inf` and `-inf`.
pub open spec fn is_float_text(text: Seq<char>) -> bool {
    is_decimal_text(text) || text == "NaN"@ || text == "inf"@ || text == "-inf"@
}

/// Tests whether `text` writes a finite number in decimal.
pub fn decimal_text(text: &str) -> (decimal: bool)
    ensures
        decimal == is_decimal_text(text@),
{
    let mut first: bool = true;
    let mut negative: bool = false;
    let mut empty: bool = true;
    let mut point: bool = false;
    let mut last_is_digit: bool = false;
    let ghost mut at: int = -1;
    for c in it: text.chars()
        invariant
            it.seq() == text@,
            first == (it.index() == 0),
            negative == (it.index() > 0 && text@[0] == '-'),
            empty == (it.index() == (if negative { 1int } else { 0int })),
            !empty ==> is_digit(text@[if negative { 1int } else { 0int }]),
            !empty ==> last_is_digit == is_digit(text@[it.index() - 1]),
            forall|i: int|
                (if negative { 1int } else { 0int }) <= i < it.index() ==> is_digit(
                    #[trigger] text@[i],
                ) || text@[i] == '.',
            point ==> (if negative { 1int } else { 0int }) <= at < it.index() && text@[at] == '.',
            forall|i: int|
                (if negative { 1int } else { 0int }) <= i < it.index() && #[trigger] text@[i]
                    == '.' ==> point && i == at,
    {
        let ghost k = it.index();
        let ghost start = if negative { 1int } else { 0int };
        let ghost body = unsigned(text@);
        if first && c == '-' {
            negative = true;
        } else if c >= '0' && c <= '9' {
            empty = false;
            last_is_digit = true;
        } else if c == '.' && !empty && !point {
            point = true;
            last_is_digit = false;
            proof {
                at = k;
            }
        } else {
            proof {
                assert(body[k - start] == c);
                if c == '.' {
                    if empty {
                        assert(!is_digit(body[0]));
                    } else {
                        assert(body[at - start] == '.');
                        assert(body[k - start] == '.');
                    }
                } else {
                    assert(!(is_digit(body[k - start]) || body[k - start] == '.'));
                }
            }
            return false;
        }
        first = false;
    }
    proof {
        let start = if negative { 1int } else { 0int };
        let body = unsigned(text@);
        assert(forall|i: int| 0 <= i < body.len() ==> body[i] == text@[i + start]);
        if !empty && last_is_digit {
            assert(is_digit(body[0]));
            assert(is_digit(body.last()));
            assert forall|i: int, j: int|
                0 <= i < body.len() && 0 <= j < body.len() && #[trigger] body[i] == '.'
                    && #[trigger] body[j] == '.' implies i == j by {
                assert(text@[i + start] == '.');
                assert(text@[j + start] == '.');
            }
        } else if !empty {
            assert(!is_digit(body.last()));
        }
    }
    !empty && last_is_digit
}

/// Tests whether `text` is what a floating-point number displays as.
pub fn float_text_ok(text: &str) -> (ok: bool)
    ensures
        ok == is_float_text(text@),
{
    let owned = text.to_owned();
    decimal_text(text) || owned == "NaN".to_owned() || owned == "inf".to_owned() || owned
        == "-inf".to_owned()
}

/// A run of `n` spaces.
pub open spec fn spaces(n: nat) -> Seq<char> {
    Seq::new(n, |i: int| ' ')
}

/// Appends `n` spaces.
pub fn push_spaces(out: &mut String, n: usize)
    ensures
        final(out)@ == old(out)@ + spaces(n as nat),
{
    let mut i: usize = 0;
    while i < n
        invariant
            i <= n,
            out@ == old(out)@ + spaces(i as nat),
        decreases n - i,
    {
        push_char(out, ' ');
        i = i + 1;
    }
}

/// What one character of a string literal is written as.
///
/// The quote and the backslash get a backslash in front; the line feed, the
/// carriage return, the tab and the null character are written by their
/// usual letter; every other character stands for itself.
pub open spec fn escaped_char(c: char, quote: char) -> Seq<char> {
    if c == quote || c == '\\' {
        seq!['\\', c]
    } else if c == '\n' {
        seq!['\\', 'n']
    } else if c == '\r' {
        seq!['\\', 'r']
    } else if c == '\t' {
        seq!['\\', 't']
    } else if c == '\0' {
        seq!['\\', '0']
    } else {
        seq![c]
    }
}

/// The body of a literal delimited by `quote` that denotes `s`.
pub open spec fn escaped(s: Seq<char>, quote: char) -> Seq<char>
    decreases s.len(),
{
    if s.len() == 0 {
        Seq::empty()
    } else {
        escaped(s.drop_last(), quote) + escaped_char(s.last(), quote)
    }
}

/// The character that the character behind a backslash stands for.
pub open spec fn unescaped_char(c: char) -> char {
    if c == 'n' {
        '\n'
    } else if c == 'r' {
        '\r'
    } else if c == 't' {
        '\t'
    } else if c == '0' {
        '\0'
    } else {
        c
    }
}

/// What the body of a literal denotes: a backslash and the character
/// behind it stand for one character, every other character for itself.
pub open spec fn unescaped(body: Seq<char>) -> Seq<char>
    decreases body.len(),
{
    if body.len() == 0 {
        Seq::empty()
    } else if body[0] == '\\' && body.len() >= 2 {
        seq![unescaped_char(body[1])] + unescaped(body.skip(2))
    } else {
        seq![body[0]] + unescaped(body.skip(1))
    }
}

/// Appends what `c` is written as inside a literal delimited by `quote`.
pub fn push_escaped_char(out: &mut String, c: char, quote: char)
    ensures
        final(out)@ == old(out)@ + escaped_char(c, quote),
{
    if c == quote || c == '\\' {
        push_char(out, '\\');
        push_char(out, c);
    } else if c == '\n' {
        push_char(out, '\\');
        push_char(out, 'n');
    } else if c == '\r' {
        push_char(out, '\\');
        push_char(out, 'r');
    } else if c == '\t' {
        push_char(out, '\\');
        push_char(out, 't');
    } else if c == '\0' {
        push_char(out, '\\');
        push_char(out, '0');
    } else {
        push_char(out, c);
    }
    assert(out@ == old(out)@ + escaped_char(c, quote));
}

/// Appends the body of a literal delimited by `quote` that denotes `s`.
pub fn push_escaped(out: &mut String, s: &str, quote: char)
    ensures
        final(out)@ == old(out)@ + escaped(s@, quote),
{
    for c in it: s.chars()
        invariant
            it.seq() == s@,
            out@ == old(out)@ + escaped(s@.take(it.index()), quote),
    {
        let ghost before = s@.take(it.index());
        let ghost after = s@.take(it.index() + 1);
        assert(after.drop_last() == before);
        assert(after.last() == c);
        push_escaped_char(out, c, quote);
    }
    assert(s@.take(s@.len() as int) == s@);
}

/// Whether `s` holds the character `c`.
pub fn contains_char(s: &str, c: char) -> (found: bool)
    ensures
        found == s@.contains(c),
{
    for x in it: s.chars()
        invariant
            it.seq() == s@,
            forall|j: int| 0 <= j < it.index() ==> s@[j] != c,
    {
        if x == c {
            assert(s@[it.index()] == c);
            return true;
        }
    }
    false
}

/// The texts that a list of strings holds, in order.
pub open spec fn texts(list: Seq<String>) -> Seq<Seq<char>> {
    Seq::new(list.len(), |i: int| list[i]@)
}

/// What an ASCII lower-case letter is in upper case; any other character
/// is itself.
pub open spec fn upper_char(c: char) -> char {
    if 'a' <= c <= 'z' {
        ((c as int) - 32) as char
    } else {
        c
    }
}

/// `s` with its ASCII lower-case letters in upper case.
pub open spec fn upper(s: Seq<char>) -> Seq<char> {
    Seq::new(s.len(), |i: int| upper_char(s[i]))
}

/// Appends `s` with its ASCII lower-case letters in upper case.
pub fn push_upper(out: &mut String, s: &str)
    ensures
        final(out)@ == old(out)@ + upper(s@),
{
    for c in it: s.chars()
        invariant
            it.seq() == s@,
            out@ == old(out)@ + upper(s@.take(it.index())),
    {
        let u: char = if c >= 'a' && c <= 'z' {
            ((c as u8) - 32) as char
        } else {
            c
        };
        assert(u == upper_char(c));
        push_char(out, u);
        assert(upper(s@.take(it.index() + 1)) == upper(s@.take(it.index())).push(u));
    }
    assert(s@.take(s@.len() as int) == s@);
}

/// The first `n` of `parts` written one after another with `, ` between
/// them.
pub open spec fn joined(parts: Seq<Seq<char>>, n: nat) -> Seq<char>
    decreases n,
{
    if n == 0 || n > parts.len() {
        Seq::empty()
    } else if n == 1 {
        parts[0]
    } else {
        joined(parts, (n - 1) as nat) + ", "@ + parts[n - 1]
    }
}

/// Appends the texts of `parts` with `, ` between them.
pub fn push_joined(out: &mut String, parts: &Vec<String>)
    ensures
        final(out)@ == old(out)@ + joined(texts(parts@), parts@.len()),
{
    let mut i: usize = 0;
    while i < parts.len()
        invariant
            i <= parts.len(),
            out@ == old(out)@ + joined(texts(parts@), i as nat),
        decreases parts.len() - i,
    {
        if i > 0 {
            out.append(", ");
        }
        out.append(parts[i].as_str());
        assert(texts(parts@)[i as int] == parts@[i as int]@);
        i = i + 1;
    }
}

} // verus!
