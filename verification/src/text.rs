//! Text: the few operations on strings that the line protocols need, each
//! with what it gives stated over the characters of the string.

use crate::service::bytes_eq;
use vstd::prelude::*;
use vstd::string::*;
use vstd::utf8::*;

verus! {

/// The text that `str::to_uppercase` gives for a text.
pub uninterp spec fn uppercase(s: Seq<char>) -> Seq<char>;

/// The text that `String::from_utf8_lossy` gives for bytes that are not
/// valid UTF-8.
pub uninterp spec fn replaced(bytes: Seq<u8>) -> Seq<char>;

/// The text that formatting a text with `{:?}` gives: the text between
/// double quotes, with escapes.
pub uninterp spec fn quoted(s: Seq<char>) -> Seq<char>;

/// Whether a character is a decimal digit.
pub open spec fn is_digit(c: char) -> bool {
    '0' <= c <= '9'
}

/// The number that decimal digits stand for.
pub open spec fn digits_value(digits: Seq<char>) -> nat
    decreases digits.len(),
{
    if digits.len() == 0 {
        0
    } else {
        digits_value(digits.drop_last()) * 10 + (digits.last() as u32 - '0' as u32) as nat
    }
}

/// The number that a text stands for: an optional plus sign, then decimal
/// digits and nothing else, at least one, whose value fits in 64 bits.
pub open spec fn parsed_u64(s: Seq<char>) -> Option<u64> {
    let digits = if s.len() > 0 && s[0] == '+' {
        s.drop_first()
    } else {
        s
    };
    if digits.len() > 0 && (forall|i: int| 0 <= i < digits.len() ==> is_digit(digits[i]))
        && digits_value(digits) <= u64::MAX {
        Some(digits_value(digits) as u64)
    } else {
        None
    }
}

/// The text that bytes stand for: the text they encode if they are valid
/// UTF-8, and else a text with replacement characters.
pub open spec fn lossy_text(bytes: Seq<u8>) -> Seq<char> {
    if valid_utf8(bytes) {
        decode_utf8(bytes)
    } else {
        replaced(bytes)
    }
}

/// The decimal digit for a number below ten.
pub open spec fn digit(n: nat) -> char
    recommends
        n < 10,
{
    if n == 0 {
        '0'
    } else if n == 1 {
        '1'
    } else if n == 2 {
        '2'
    } else if n == 3 {
        '3'
    } else if n == 4 {
        '4'
    } else if n == 5 {
        '5'
    } else if n == 6 {
        '6'
    } else if n == 7 {
        '7'
    } else if n == 8 {
        '8'
    } else {
        '9'
    }
}

/// A number in decimal, without leading zeros.
pub open spec fn decimal(n: nat) -> Seq<char>
    decreases n,
{
    if n < 10 {
        seq![digit(n)]
    } else {
        decimal(n / 10).push(digit(n % 10))
    }
}

/// Whether `s` ends with `suffix`.
pub open spec fn ends_with(s: Seq<char>, suffix: Seq<char>) -> bool {
    s.len() >= suffix.len() && s.subrange(s.len() - suffix.len(), s.len() as int) == suffix
}

/// `s` without the `n` characters at its end.
pub open spec fn without_end(s: Seq<char>, n: nat) -> Seq<char>
    recommends
        n <= s.len(),
{
    s.subrange(0, s.len() - n)
}

/// The position of the first `c` in `s`, or the length of `s` if there is
/// none.
pub open spec fn first_index(s: Seq<char>, c: char) -> int
    decreases s.len(),
{
    if s.len() == 0 || s[0] == c {
        0
    } else {
        1 + first_index(s.drop_first(), c)
    }
}

/// What stands before the first `c` in `s`.
pub open spec fn before_first(s: Seq<char>, c: char) -> Seq<char> {
    s.subrange(0, first_index(s, c))
}

/// What stands behind the first `c` in `s`.
pub open spec fn after_first(s: Seq<char>, c: char) -> Seq<char>
    recommends
        first_index(s, c) < s.len(),
{
    s.subrange(first_index(s, c) + 1, s.len() as int)
}

/// The first `c` is within the text, or the text has none; no `c` stands
/// before it.
pub proof fn lemma_first_index(s: Seq<char>, c: char)
    ensures
        0 <= first_index(s, c) <= s.len(),
        first_index(s, c) < s.len() ==> s[first_index(s, c)] == c,
        forall|i: int| 0 <= i < first_index(s, c) ==> s[i] != c,
    decreases s.len(),
{
    if s.len() == 0 || s[0] == c {
    } else {
        lemma_first_index(s.drop_first(), c);
        assert forall|i: int| 0 <= i < first_index(s, c) implies s[i] != c by {
            if i > 0 {
                assert(s[i] == s.drop_first()[i - 1]);
            }
        }
    }
}

/// Calls `str::to_uppercase`. The result is as long a text as Unicode
/// makes it; the contract names it and says no more.
#[verifier::external_body]
pub(crate) fn to_uppercase(s: &str) -> (upper: String)
    ensures
        upper@ == uppercase(s@),
{
    s.to_uppercase()
}

/// Calls `String::from_utf8_lossy`. Valid UTF-8 gives the text it
/// encodes; for other bytes the contract only names the result.
#[verifier::external_body]
pub(crate) fn from_utf8_lossy(bytes: &[u8]) -> (text: String)
    ensures
        valid_utf8(bytes@) ==> text@ == decode_utf8(bytes@),
        !valid_utf8(bytes@) ==> text@ == replaced(bytes@),
{
    String::from_utf8_lossy(bytes).into_owned()
}

/// Formats a text with `{:?}`. The contract names the result.
#[verifier::external_body]
pub(crate) fn debug_format(s: &str) -> (text: String)
    ensures
        text@ == quoted(s@),
{
    format!("{:?}", s)
}

/// A number written in decimal is read as itself.
pub proof fn lemma_parsed_decimal(n: u64)
    ensures
        parsed_u64(decimal(n as nat)) == Some(n),
{
    lemma_decimal_digits(n as nat);
}

/// What is written in decimal are digits, at least one, that stand for the
/// number.
pub proof fn lemma_decimal_digits(n: nat)
    ensures
        decimal(n).len() > 0,
        forall|i: int| 0 <= i < decimal(n).len() ==> is_digit(#[trigger] decimal(n)[i]),
        digits_value(decimal(n)) == n,
    decreases n,
{
    if n < 10 {
        let d = decimal(n);
        assert(d.drop_last() =~= Seq::<char>::empty());
        assert(d.last() == digit(n));
        assert(digits_value(d.drop_last()) == 0);
    } else {
        lemma_decimal_digits(n / 10);
        let d = decimal(n);
        assert(d.drop_last() =~= decimal(n / 10));
        assert(d.last() == digit(n % 10));
        assert forall|i: int| 0 <= i < d.len() implies is_digit(#[trigger] d[i]) by {
            if i < d.len() - 1 {
                assert(d[i] == decimal(n / 10)[i]);
            }
        }
    }
}

/// Calls `str::parse::<u64>`: an optional plus sign and decimal digits are
/// read as the number they stand for, if it fits; anything else is none.
#[verifier::external_body]
pub(crate) fn parse_u64(s: &str) -> (n: Option<u64>)
    ensures
        n == parsed_u64(s@),
{
    s.parse::<u64>().ok()
}

/// Calls `u64::to_string`: the number in decimal.
#[verifier::external_body]
pub(crate) fn u64_to_string(n: u64) -> (text: String)
    ensures
        text@ == decimal(n as nat),
{
    n.to_string()
}

/// Whether two texts hold the same characters.
pub fn str_eq(a: &str, b: &str) -> (same: bool)
    ensures
        same == (a@ == b@),
{
    let same: bool = bytes_eq(a.as_bytes(), b.as_bytes());
    proof {
        encode_utf8_decode_utf8(a@);
        encode_utf8_decode_utf8(b@);
    }
    same
}

/// Calls `str::strip_suffix`: the text without `suffix` at its end, if it
/// ends with it.
#[verifier::external_body]
pub(crate) fn strip_suffix<'a>(s: &'a str, suffix: &str) -> (stripped: Option<&'a str>)
    ensures
        stripped is Some == ends_with(s@, suffix@),
        stripped is Some ==> stripped->Some_0@ == without_end(s@, suffix@.len()),
{
    s.strip_suffix(suffix)
}

/// Calls `str::split_once` with a character: what stands before and behind
/// the first occurrence of `delimiter`, if there is one.
#[verifier::external_body]
pub(crate) fn split_once<'a>(s: &'a str, delimiter: char) -> (parts: Option<(&'a str, &'a str)>)
    ensures
        parts is Some == s@.contains(delimiter),
        parts is Some ==> parts->Some_0.0@ == before_first(s@, delimiter) && parts->Some_0.1@
            == after_first(s@, delimiter),
{
    s.split_once(delimiter)
}

/// Joins two texts.
pub fn concat(a: String, b: &str) -> (joined: String)
    ensures
        joined@ == a@ + b@,
{
    a.concat(b)
}

/// The word and the argument of a line without its end: what stands before
/// the first space and what stands behind it, or the line and nothing.
pub open spec fn word_and_argument(body: Seq<char>) -> (Seq<char>, Seq<char>) {
    if body.contains(' ') {
        (before_first(body, ' '), after_first(body, ' '))
    } else {
        (body, Seq::empty())
    }
}

/// A line without the line feed at its end and the carriage return before
/// it, where they are there.
pub open spec fn trimmed(line: Seq<char>) -> Seq<char> {
    let body = if ends_with(line, "\n"@) {
        without_end(line, 1)
    } else {
        line
    };
    if ends_with(body, "\r"@) {
        without_end(body, 1)
    } else {
        body
    }
}

/// The command of a line and its argument: the first word of the trimmed
/// line in capitals, and what follows its first space.
pub open spec fn order_of(line: Seq<char>) -> (Seq<char>, Seq<char>) {
    let (word, argument) = word_and_argument(trimmed(line));
    (uppercase(word), argument)
}

/// Cuts a line into its command, in capitals, and its argument.
pub fn split_order(line: &str) -> (r: (String, String))
    ensures
        (r.0@, r.1@) == order_of(line@),
{
    proof {
        reveal_strlit("\n");
        reveal_strlit("\r");
    }
    let body: &str = match strip_suffix(line, "\n") {
        Some(body) => body,
        None => line,
    };
    let body: &str = match strip_suffix(body, "\r") {
        Some(body) => body,
        None => body,
    };
    let (word, argument): (&str, String) = match split_once(body, ' ') {
        Some((word, argument)) => (word, argument.to_owned()),
        None => (body, String::new()),
    };
    (to_uppercase(word), argument)
}

/// Whether a line ends with a line feed.
pub fn is_whole_line(line: &str) -> (whole: bool)
    ensures
        whole == ends_with(line@, "\n"@),
{
    strip_suffix(line, "\n").is_some()
}

} // verus!
