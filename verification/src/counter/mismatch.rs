//! Reading the store's current value out of the text of a compare-and-swap
//! mismatch, which has the form `current value N is not M`.

use regex::Regex;
use vstd::prelude::*;
use vstd::string::*;

verus! {

/// The pattern that finds the current value in the text of a mismatch.
pub const CAS_ERROR_PATTERN: &'static str = r"current value (?P<value>[\d]+) is not [\d]+";

/// The name of the group of [`CAS_ERROR_PATTERN`] that holds the value.
pub const CAS_ERROR_GROUP: &'static str = "value";

/// What the regular expression `pattern` captures under the name `group` at
/// its first match in `haystack`; `None` where the pattern is no regular
/// expression, does not match, or has no such group in the match.
pub uninterp spec fn regex_named_capture(
    pattern: Seq<char>,
    group: Seq<char>,
    haystack: Seq<char>,
) -> Option<Seq<char>>;

/// The content of an optional string.
pub open spec fn text_of(text: Option<String>) -> Option<Seq<char>> {
    match text {
        Some(text) => Some(text@),
        None => None,
    }
}

/// Compiles `pattern` with `regex::Regex::new`, searches `haystack` with
/// `Regex::captures`, and copies out what `Captures::name` holds for `group`.
/// Nothing is proved of this function: the contract gives its result a name,
/// the text that the regular expression engine captures for these three
/// arguments, which depends on nothing else.
#[verifier::external_body]
fn named_capture(pattern: &str, group: &str, haystack: &str) -> (captured: Option<String>)
    ensures
        text_of(captured) == regex_named_capture(pattern@, group@, haystack@),
{
    match Regex::new(pattern) {
        Ok(re) => match re.captures(haystack) {
            Some(caps) => match caps.name(group) {
                Some(found) => Some(found.as_str().to_owned()),
                None => None,
            },
            None => None,
        },
        Err(_) => None,
    }
}

/// Whether `c` is one of the ten ASCII digits.
pub open spec fn is_digit(c: char) -> bool {
    '0' <= c <= '9'
}

/// The number that a sequence of ASCII digits writes in base ten; the empty
/// sequence writes zero.
pub open spec fn digits_value(digits: Seq<char>) -> nat
    decreases digits.len(),
{
    if digits.len() == 0 {
        0
    } else {
        digits_value(digits.drop_last()) * 10 + (digits.last() as nat - '0' as nat) as nat
    }
}

/// The machine integer that `text` writes in base ten: `text` must be one or
/// more ASCII digits, and the number must fit.
pub open spec fn decimal_value(text: Seq<char>) -> Option<usize> {
    if text.len() > 0 && (forall|i: int| 0 <= i < text.len() ==> is_digit(#[trigger] text[i]))
        && digits_value(text) <= usize::MAX {
        Some(digits_value(text) as usize)
    } else {
        None
    }
}

/// The current value that the text of a mismatch reports, if it reports one
/// that fits the machine's integers.
pub open spec fn mismatch_value(text: Seq<char>) -> Option<usize> {
    match regex_named_capture(CAS_ERROR_PATTERN@, CAS_ERROR_GROUP@, text) {
        Some(digits) => decimal_value(digits),
        None => None,
    }
}

/// A longer sequence of digits never writes a smaller number than its prefix.
proof fn lemma_digits_value_grows(digits: Seq<char>, n: int)
    requires
        0 <= n <= digits.len(),
    ensures
        digits_value(digits.take(n)) <= digits_value(digits),
    decreases digits.len(),
{
    if n == digits.len() {
        assert(digits.take(n) =~= digits);
    } else {
        lemma_digits_value_grows(digits.drop_last(), n);
        assert(digits.drop_last().take(n) =~= digits.take(n));
    }
}

/// Reads `text` as a number in base ten.
pub fn parse_decimal(text: &str) -> (value: Option<usize>)
    ensures
        value == decimal_value(text@),
{
    if !text.is_ascii() {
        proof {
            let i = choose|i: int| 0 <= i < text@.len() && !('\0' <= #[trigger] text@[i] <= '\u{7f}');
            assert(!is_digit(text@[i]));
        }
        return None;
    }
    let n: usize = text.unicode_len();
    if n == 0 {
        return None;
    }
    let mut value: usize = 0;
    let mut i: usize = 0;
    while i < n
        invariant
            text.is_ascii(),
            n == text@.len(),
            0 <= i <= n,
            value == digits_value(text@.take(i as int)),
            forall|j: int| 0 <= j < i ==> is_digit(#[trigger] text@[j]),
        decreases n - i,
    {
        let b: u8 = text.get_ascii(i);
        let ghost prefix = text@.take(i as int + 1);
        proof {
            assert(prefix.drop_last() =~= text@.take(i as int));
            assert(prefix.last() == text@[i as int]);
        }
        if b < 48 || b > 57 {
            assert(!is_digit(text@[i as int]));
            return None;
        }
        let digit: usize = (b - 48) as usize;
        assert(digit == (text@[i as int] as nat - '0' as nat));
        let scaled: usize = match value.checked_mul(10) {
            Some(scaled) => scaled,
            None => {
                proof {
                    lemma_digits_value_grows(text@, i as int + 1);
                }
                return None;
            },
        };
        value = match scaled.checked_add(digit) {
            Some(sum) => sum,
            None => {
                proof {
                    lemma_digits_value_grows(text@, i as int + 1);
                }
                return None;
            },
        };
        i = i + 1;
    }
    assert(text@.take(n as int) =~= text@);
    Some(value)
}

/// Reads the store's current value out of the text of a mismatch: the digits
/// that [`CAS_ERROR_PATTERN`] captures, as a number.
pub fn current_value(text: &str) -> (value: Option<usize>)
    ensures
        value == mismatch_value(text@),
{
    match named_capture(CAS_ERROR_PATTERN, CAS_ERROR_GROUP, text) {
        Some(digits) => parse_decimal(digits.as_str()),
        None => None,
    }
}

} // verus!
