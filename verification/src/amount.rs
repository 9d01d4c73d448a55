//! Amounts as text: decimal digits with an optional sign.

use vstd::prelude::*;
use vstd::string::{is_ascii_spec_bytes, StringExecFns, StringSliceAdditionalSpecFns};

verus! {

/// Whether `c` is one of the ten decimal digits.
pub open spec fn is_digit(c: char) -> bool {
    '0' <= c && c <= '9'
}

/// The number that the digit `c` stands for.
pub open spec fn digit_value(c: char) -> int {
    c as int - '0' as int
}

/// The digit that stands for `d`, for `d` from 0 to 9.
pub open spec fn digit_char(d: int) -> char {
    ('0' as int + d) as char
}

/// Whether `s` is a run of at least one digit.
pub open spec fn is_digits(s: Seq<char>) -> bool {
    s.len() > 0 && forall|i: int| 0 <= i < s.len() ==> is_digit(#[trigger] s[i])
}

/// The number that a run of digits denotes, read in base ten with the most
/// significant digit first. Leading zeros count for nothing.
pub open spec fn digits_value(s: Seq<char>) -> int
    decreases s.len(),
{
    if s.len() == 0 {
        0
    } else {
        10 * digits_value(s.drop_last()) + digit_value(s.last())
    }
}

/// The number that `s` denotes if `s` is a run of digits and that number is
/// at most `limit`.
pub open spec fn digits_below(s: Seq<char>, limit: int) -> Option<int> {
    if is_digits(s) && digits_value(s) <= limit {
        Some(digits_value(s))
    } else {
        None
    }
}

/// The number that `text` denotes: a run of digits, which a single `+` or
/// `-` may precede. Nothing else is a number: not the empty text, a lone
/// sign, or text with a blank or a decimal point in it.
pub open spec fn number_of(text: Seq<char>) -> Option<int> {
    if text.len() > 0 && text[0] == '-' {
        if is_digits(text.skip(1)) {
            Some(-digits_value(text.skip(1)))
        } else {
            None
        }
    } else if text.len() > 0 && text[0] == '+' {
        if is_digits(text.skip(1)) {
            Some(digits_value(text.skip(1)))
        } else {
            None
        }
    } else if is_digits(text) {
        Some(digits_value(text))
    } else {
        None
    }
}

/// The amount that `text` denotes: its number, where that can be held in an
/// `i64`.
pub open spec fn amount_of(text: Seq<char>) -> Option<int> {
    match number_of(text) {
        Some(n) => if i64::MIN <= n <= i64::MAX {
            Some(n)
        } else {
            None
        },
        None => None,
    }
}

/// A run of digits denotes no negative number.
pub proof fn lemma_value_not_negative(s: Seq<char>)
    requires
        forall|i: int| 0 <= i < s.len() ==> is_digit(#[trigger] s[i]),
    ensures
        0 <= digits_value(s),
    decreases s.len(),
{
    if s.len() > 0 {
        lemma_value_not_negative(s.drop_last());
        assert(is_digit(s[s.len() - 1]));
    }
}

/// A run of digits denotes no less than any of its prefixes does.
pub proof fn lemma_prefix_value(s: Seq<char>, k: int)
    requires
        0 <= k <= s.len(),
        forall|i: int| 0 <= i < s.len() ==> is_digit(#[trigger] s[i]),
    ensures
        0 <= digits_value(s.take(k)) <= digits_value(s),
    decreases s.len(),
{
    if k == s.len() {
        assert(s.take(k) =~= s);
        lemma_value_not_negative(s);
    } else {
        lemma_prefix_value(s.drop_last(), k);
        assert(s.drop_last().take(k) =~= s.take(k));
        assert(is_digit(s[s.len() - 1]));
    }
}

/// Reads the digits of `text` from position `start` to its end.
pub(crate) fn parse_digits(text: &str, start: usize, limit: u64) -> (value: Option<u64>)
    requires
        text.is_ascii(),
        start <= text@.len(),
        limit <= 0x8000_0000_0000_0000,
    ensures
        match value {
            Some(v) => digits_below(text@.skip(start as int), limit as int) == Some(v as int),
            None => digits_below(text@.skip(start as int), limit as int) is None,
        },
{
    let bytes = text.as_bytes();
    proof {
        is_ascii_spec_bytes(text);
    }
    let n = bytes.len();
    let ghost digits = text@.skip(start as int);
    if start == n {
        return None;
    }
    let mut total: u128 = 0;
    let mut i: usize = start;
    while i < n
        invariant
            start <= i <= n,
            n == text@.len(),
            bytes@.len() == n,
            forall|j: int| 0 <= j < n ==> bytes@[j] == text@[j] as u8,
            forall|j: int| 0 <= j < n ==> '\0' <= #[trigger] text@[j] <= '\u{7f}',
            digits == text@.skip(start as int),
            forall|j: int| 0 <= j < i - start ==> is_digit(#[trigger] digits[j]),
            total == digits_value(digits.take(i - start)),
            total <= limit,
            limit <= 0x8000_0000_0000_0000,
        decreases n - i,
    {
        let b: u8 = bytes[i];
        let ghost c = text@[i as int];
        assert(c == digits[i - start]);
        assert(b == c as u8);
        if b < 48 || b > 57 {
            assert(!is_digit(digits[i - start]));
            return None;
        }
        assert(is_digit(c));
        assert(digit_value(c) == b - 48);
        let ghost longer = digits.take(i - start + 1);
        assert(longer.drop_last() =~= digits.take(i - start));
        assert(longer.last() == c);
        total = total * 10 + (b - 48) as u128;
        assert(total == digits_value(longer));
        if total > limit as u128 {
            proof {
                if is_digits(digits) {
                    lemma_prefix_value(digits, i - start + 1);
                }
            }
            return None;
        }
        i += 1;
    }
    assert(digits.take(i - start) =~= digits);
    Some(total as u64)
}

/// Reads an amount: digits, which a single `+` or `-` may precede. Gives
/// `None` for text that is no number, and for a number that an `i64` cannot
/// hold.
pub fn parse_amount(text: &str) -> (amount: Option<i64>)
    ensures
        match amount {
            Some(a) => amount_of(text@) == Some(a as int),
            None => amount_of(text@) is None,
        },
{
    if !text.is_ascii() {
        proof {
            if number_of(text@) is Some {
                lemma_number_is_ascii(text@);
            }
        }
        return None;
    }
    let bytes = text.as_bytes();
    proof {
        is_ascii_spec_bytes(text);
    }
    if bytes.len() == 0 {
        return None;
    }
    let first: u8 = bytes[0];
    assert(first == text@[0] as u8);
    assert('\0' <= text@[0] <= '\u{7f}');
    if first == 45 {
        assert(text@[0] == '-');
        match parse_digits(text, 1, 0x8000_0000_0000_0000) {
            Some(magnitude) => Some((-(magnitude as i128)) as i64),
            None => {
                proof {
                    if is_digits(text@.skip(1)) {
                        lemma_value_not_negative(text@.skip(1));
                    }
                }
                None
            },
        }
    } else {
        let start: usize = if first == 43 {
            1
        } else {
            0
        };
        assert(text@.skip(0) =~= text@);
        assert(first == 43 <==> text@[0] == '+');
        match parse_digits(text, start, 0x7fff_ffff_ffff_ffff) {
            Some(magnitude) => Some(magnitude as i64),
            None => {
                proof {
                    if is_digits(text@.skip(start as int)) {
                        lemma_value_not_negative(text@.skip(start as int));
                    }
                }
                None
            },
        }
    }
}

/// Text that denotes a number holds signs and digits only.
pub proof fn lemma_number_is_ascii(text: Seq<char>)
    requires
        number_of(text) is Some,
    ensures
        vstd::utf8::is_ascii_chars(text),
{
    assert forall|i: int| 0 <= i < text.len() implies '\0' <= #[trigger] text[i] <= '\u{7f}' by {
        if text[0] == '-' || text[0] == '+' {
            if i > 0 {
                assert(text[i] == text.skip(1)[i - 1]);
            }
        }
    }
}

/// The digits of `n` in base ten, most significant first, without leading
/// zeros; zero is written `0`.
pub open spec fn nat_text(n: nat) -> Seq<char>
    decreases n,
{
    if n < 10 {
        seq![digit_char(n as int)]
    } else {
        nat_text(n / 10) + seq![digit_char((n % 10) as int)]
    }
}

/// How an amount is written: its digits, after a `-` where it is negative.
pub open spec fn amount_text(amount: int) -> Seq<char> {
    if amount < 0 {
        seq!['-'] + nat_text((-amount) as nat)
    } else {
        nat_text(amount as nat)
    }
}

/// The text of one digit.
fn digit_str(d: u8) -> (s: &'static str)
    requires
        d < 10,
    ensures
        s@ == seq![digit_char(d as int)],
{
    proof {
        reveal_strlit("0");
        reveal_strlit("1");
        reveal_strlit("2");
        reveal_strlit("3");
        reveal_strlit("4");
        reveal_strlit("5");
        reveal_strlit("6");
        reveal_strlit("7");
        reveal_strlit("8");
        reveal_strlit("9");
    }
    let s = match d {
        0 => "0",
        1 => "1",
        2 => "2",
        3 => "3",
        4 => "4",
        5 => "5",
        6 => "6",
        7 => "7",
        8 => "8",
        _ => "9",
    };
    assert(s@ =~= seq![digit_char(d as int)]);
    s
}

/// Writes `n` in base ten.
fn format_magnitude(n: u64) -> (text: String)
    ensures
        text@ == nat_text(n as nat),
    decreases n,
{
    if n < 10 {
        String::from_str(digit_str(n as u8))
    } else {
        let mut text = format_magnitude(n / 10);
        text.append(digit_str((n % 10) as u8));
        text
    }
}

/// Writes an amount in base ten, with a `-` before a negative one.
pub fn format_amount(amount: i64) -> (text: String)
    ensures
        text@ == amount_text(amount as int),
{
    if amount < 0 {
        let magnitude = (-(amount as i128)) as u64;
        proof {
            reveal_strlit("-");
        }
        let text = String::from_str("-").concat(format_magnitude(magnitude).as_str());
        assert("-"@ =~= seq!['-']);
        text
    } else {
        format_magnitude(amount as u64)
    }
}

/// What `nat_text` writes is a run of digits that denotes the number written.
pub proof fn lemma_nat_text_value(n: nat)
    ensures
        is_digits(nat_text(n)),
        digits_value(nat_text(n)) == n,
    decreases n,
{
    if n < 10 {
        let s = nat_text(n);
        assert(s.drop_last() =~= Seq::<char>::empty());
        assert(digits_value(s.drop_last()) == 0);
    } else {
        lemma_nat_text_value(n / 10);
        let s = nat_text(n);
        assert(s.drop_last() =~= nat_text(n / 10));
        assert(s.last() == digit_char((n % 10) as int));
    }
}

/// An amount that is written and read again is the same amount.
pub proof fn lemma_amount_text_round_trip(amount: int)
    requires
        i64::MIN <= amount <= i64::MAX,
    ensures
        amount_of(amount_text(amount)) == Some(amount),
{
    if amount < 0 {
        let digits = nat_text((-amount) as nat);
        lemma_nat_text_value((-amount) as nat);
        assert(amount_text(amount).skip(1) =~= digits);
        assert(amount_text(amount)[0] == '-');
    } else {
        lemma_nat_text_value(amount as nat);
        assert(is_digit(nat_text(amount as nat)[0]));
    }
}

} // verus!
