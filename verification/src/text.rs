//! Text helpers: comparing strings, writing numbers in decimal and reading them back.

use std::sync::Arc;

use vstd::prelude::*;
use vstd::string::StringExecFns;

verus! {

/// The character that stands for the decimal digit `d`.
pub open spec fn digit(d: nat) -> char
    recommends
        d < 10,
{
    (48 + d) as char
}

/// The decimal notation of `n`: no sign, no leading zeros.
pub open spec fn decimal(n: nat) -> Seq<char>
    decreases n,
{
    if n < 10 {
        seq![digit(n)]
    } else {
        decimal(n / 10).push(digit(n % 10))
    }
}

/// Whether `text` consists of one or more decimal digits and of nothing else.
pub open spec fn is_digits(text: Seq<char>) -> bool {
    text.len() > 0 && forall|i: int| 0 <= i < text.len() ==> '0' <= #[trigger] text[i] <= '9'
}

/// The number that a sequence of decimal digits stands for.
pub open spec fn digits_value(digits: Seq<char>) -> nat
    decreases digits.len(),
{
    if digits.len() == 0 {
        0
    } else {
        10 * digits_value(digits.drop_last()) + ((digits.last() as nat) - 48) as nat
    }
}

/// The number that `text` denotes: decimal digits, possibly after one `+` sign, with a value that
/// fits a `usize`. Any other text denotes none.
pub open spec fn number(text: Seq<char>) -> Option<usize> {
    let digits = if text.len() > 0 && text[0] == '+' {
        text.drop_first()
    } else {
        text
    };
    if is_digits(digits) && digits_value(digits) <= usize::MAX {
        Some(digits_value(digits) as usize)
    } else {
        None
    }
}

/// Compares two strings with `str`'s `==`: they are equal when they hold the same characters in
/// the same order.
#[verifier::external_body]
pub(crate) fn same_text(left: &str, right: &str) -> (same: bool)
    ensures
        same == (left@ == right@),
{
    left == right
}

/// Reads a number with `str::parse::<usize>`, which accepts decimal digits after an optional `+`
/// sign and rejects everything else, values over `usize::MAX` among it.
#[verifier::external_body]
pub(crate) fn parse_usize(text: &str) -> (parsed: Option<usize>)
    ensures
        parsed == number(text@),
{
    text.parse::<usize>().ok()
}

/// A string as `{:?}` writes it: in quotes, with special characters escaped.
pub uninterp spec fn quoted(text: Seq<char>) -> Seq<char>;

/// Writes a string with `str`'s `Debug`.
#[verifier::external_body]
pub(crate) fn quote(text: &str) -> (literal: String)
    ensures
        literal@ == quoted(text@),
{
    format!("{:?}", text)
}

/// Copies a string into shared memory with `Arc::<str>::from`.
#[verifier::external_body]
pub(crate) fn share(text: &str) -> (shared: Arc<str>)
    ensures
        (*shared)@ == text@,
{
    Arc::from(text)
}

/// Makes another reference to a shared string with `Arc::clone`: the string is the same.
#[verifier::external_body]
pub(crate) fn share_again(shared: &Arc<str>) -> (clone: Arc<str>)
    ensures
        clone == *shared,
{
    Arc::clone(shared)
}

/// The text of a single decimal digit.
fn digit_text(d: u64) -> (text: &'static str)
    requires
        d < 10,
    ensures
        text@ == seq![digit(d as nat)],
{
    proof {
        reveal_strlit("0");
        reveal_strlit("1");
        reveal_strlit("2");
        reveal_strlit("3");
        reveal_strlit("4");
        reveal_strlit("5");
        reveal_strlit("6");
        reveal_strlit("7");
        reveal_strlit("8");
        reveal_strlit("9");
    }
    match d {
        0 => "0",
        1 => "1",
        2 => "2",
        3 => "3",
        4 => "4",
        5 => "5",
        6 => "6",
        7 => "7",
        8 => "8",
        _ => "9",
    }
}

/// Writes `n` in decimal.
pub fn to_decimal(n: u64) -> (text: String)
    ensures
        text@ == decimal(n as nat),
    decreases n,
{
    if n < 10 {
        digit_text(n).to_owned()
    } else {
        let mut text = to_decimal(n / 10);
        text.append(digit_text(n % 10));
        text
    }
}

/// A decimal digit after a sequence of digits multiplies its value by ten and adds its own.
proof fn lemma_digits_value_push(digits: Seq<char>, d: nat)
    requires
        is_digits(digits),
        d < 10,
    ensures
        is_digits(digits.push((48 + d) as char)),
        digits_value(digits.push((48 + d) as char)) == 10 * digits_value(digits) + d,
{
    let more = digits.push((48 + d) as char);
    assert(more.drop_last() == digits);
    assert(more.last() == (48 + d) as char);
}

/// Decimal notation consists of digits, and its value is the number.
proof fn lemma_decimal(n: nat)
    ensures
        is_digits(decimal(n)),
        digits_value(decimal(n)) == n,
        decimal(n).len() > 1 ==> decimal(n)[0] != '0',
        n > 0 ==> decimal(n)[0] != '0',
    decreases n,
{
    if n < 10 {
        reveal_with_fuel(digits_value, 2);
        assert(decimal(n).drop_last() == Seq::<char>::empty());
    } else {
        lemma_decimal(n / 10);
        lemma_digits_value_push(decimal(n / 10), n % 10);
    }
}

/// Every number that fits a `usize` is read back from its decimal notation.
pub proof fn law_decimal_reads_back(n: nat)
    requires
        n <= usize::MAX,
    ensures
        number(decimal(n)) == Some(n as usize),
{
    lemma_decimal(n);
}

/// Two numbers are never written alike.
pub proof fn law_decimal_is_unambiguous(n: nat, m: nat)
    requires
        decimal(n) == decimal(m),
    ensures
        n == m,
{
    lemma_decimal(n);
    lemma_decimal(m);
}

/// Numbers are read digit by digit: a single digit denotes its value, and one more digit after a
/// number multiplies it by ten and adds the value of the digit, unless that does not fit a `usize`.
pub proof fn law_numbers_are_read_by_digits(text: Seq<char>, d: nat)
    requires
        d < 10,
    ensures
        number(seq![(48 + d) as char]) == Some(d as usize),
        number(seq!['+', (48 + d) as char]) == Some(d as usize),
        number(text) matches Some(n) ==> number(text.push((48 + d) as char)) == (if 10 * n + d
            <= usize::MAX {
            Some((10 * n + d) as usize)
        } else {
            None
        }),
{
    let one = seq![(48 + d) as char];
    reveal_with_fuel(digits_value, 2);
    assert(one.drop_last() == Seq::<char>::empty());
    assert(seq!['+', (48 + d) as char].drop_first() == one);
    if number(text) is Some {
        if text[0] == '+' {
            lemma_digits_value_push(text.drop_first(), d);
            assert(text.push((48 + d) as char).drop_first() == text.drop_first().push(
                (48 + d) as char,
            ));
        } else {
            lemma_digits_value_push(text, d);
        }
    }
}

/// A text denotes no number if it is empty, only a sign, or has a character that is neither a digit
/// nor a sign in front.
pub proof fn law_other_texts_denote_no_number(text: Seq<char>, i: int)
    requires
        0 <= i < text.len(),
        !('0' <= text[i] <= '9'),
        i == 0 ==> text[i] != '+',
    ensures
        number(text) is None,
        number(Seq::<char>::empty()) is None,
        number(seq!['+']) is None,
{
    assert(seq!['+'].drop_first() == Seq::<char>::empty());
    if text[0] == '+' {
        assert(text.drop_first()[i - 1] == text[i]);
    }
}

/// A number is written with its last digit after the digits of its tenth, and a single digit is
/// written as itself.
pub proof fn law_to_decimal_writes_digit_by_digit(n: u64, text: String, tenth: String)
    requires
        call_ensures(to_decimal, (n,), text),
        call_ensures(to_decimal, (n / 10,), tenth),
    ensures
        n < 10 ==> text@ == seq![(48 + n) as char],
        n >= 10 ==> text@ == tenth@.push((48 + n % 10) as char),
        n <= usize::MAX ==> number(text@) == Some(n as usize),
{
    lemma_decimal(n as nat);
}

} // verus!
