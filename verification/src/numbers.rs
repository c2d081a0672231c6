//! Whole numbers: decimal text in both directions and saturating arithmetic.
use vstd::prelude::*;

use crate::text::{chars_of, concat, digit, is_digit, string_of};

verus! {

// ---------------------------------------------------------------------------
// Saturating arithmetic

/// The number of 64 bits with a sign that is nearest to `x`.
pub open spec fn saturated(x: int) -> int {
    if x > i64::MAX {
        i64::MAX as int
    } else if x < i64::MIN {
        i64::MIN as int
    } else {
        x
    }
}

/// `low` below the range, `high` above it, the number itself within it.
pub open spec fn clamped(x: int, low: int, high: int) -> int {
    if x < low {
        low
    } else if x > high {
        high
    } else {
        x
    }
}

/// The larger of two numbers.
pub open spec fn larger(a: int, b: int) -> int {
    if a >= b {
        a
    } else {
        b
    }
}

/// The smaller of two numbers.
pub open spec fn smaller(a: int, b: int) -> int {
    if a <= b {
        a
    } else {
        b
    }
}

/// The sum, held at the ends of the range.
pub fn sum_saturated(a: i64, b: i64) -> (r: i64)
    ensures
        r == saturated(a + b),
{
    match a.checked_add(b) {
        Some(x) => x,
        None => if a > 0 {
            i64::MAX
        } else {
            i64::MIN
        },
    }
}

/// The difference, held at the ends of the range.
pub fn difference_saturated(a: i64, b: i64) -> (r: i64)
    ensures
        r == saturated(a - b),
{
    match a.checked_sub(b) {
        Some(x) => x,
        None => if a >= 0 {
            i64::MAX
        } else {
            i64::MIN
        },
    }
}

/// The product, held at the ends of the range.
pub fn product_saturated(a: i64, b: i64) -> (r: i64)
    ensures
        r == saturated(a * b),
{
    match a.checked_mul(b) {
        Some(x) => x,
        None => {
            if (a > 0) == (b > 0) {
                proof {
                    assert(a * b >= 0) by (nonlinear_arith)
                        requires
                            (a > 0) == (b > 0),
                    ;
                }
                i64::MAX
            } else {
                proof {
                    assert(a * b <= 0) by (nonlinear_arith)
                        requires
                            (a > 0) != (b > 0),
                    ;
                }
                i64::MIN
            }
        },
    }
}

/// The number held between two bounds.
pub fn clamp(x: i64, low: i64, high: i64) -> (r: i64)
    requires
        low <= high,
    ensures
        r == clamped(x as int, low as int, high as int),
{
    if x < low {
        low
    } else if x > high {
        high
    } else {
        x
    }
}

pub fn max(a: i64, b: i64) -> (r: i64)
    ensures
        r == larger(a as int, b as int),
{
    if a >= b {
        a
    } else {
        b
    }
}

pub fn min(a: i64, b: i64) -> (r: i64)
    ensures
        r == smaller(a as int, b as int),
{
    if a <= b {
        a
    } else {
        b
    }
}

/// A length as a number of 64 bits with a sign, held at the end of the range.
pub fn length_i64(n: usize) -> (r: i64)
    ensures
        r == saturated(n as int),
{
    if (n as u64) > 9_223_372_036_854_775_807u64 {
        i64::MAX
    } else {
        n as i64
    }
}

// ---------------------------------------------------------------------------
// Decimal text

/// The decimal digit with the value `d`.
pub open spec fn digit_char(d: int) -> char {
    (('0' as u8) + d) as u8 as char
}

/// The value of a decimal digit.
pub open spec fn digit_value(c: char) -> nat {
    ((c as u32) - ('0' as u32)) as nat
}

/// A number in decimal without leading zeros.
pub open spec fn decimal(n: nat) -> Seq<char>
    decreases n,
{
    if n < 10 {
        seq![digit_char(n as int)]
    } else {
        decimal(n / 10).push(digit_char((n % 10) as int))
    }
}

/// A number in decimal with a minus sign in front of it where it is negative.
pub open spec fn signed_decimal(n: int) -> Seq<char> {
    if n < 0 {
        seq!['-'] + decimal((-n) as nat)
    } else {
        decimal(n as nat)
    }
}

/// The decimal digits of a number, one per item of the list.
fn decimal_chars(n: u64) -> (r: Vec<char>)
    ensures
        r@ == decimal(n as nat),
    decreases n,
{
    let mut out: Vec<char> = if n < 10 {
        Vec::new()
    } else {
        decimal_chars(n / 10)
    };
    out.push((48u8 + (n % 10) as u8) as char);
    proof {
        if n < 10 {
            assert(out@ =~= decimal(n as nat));
        }
    }
    out
}

/// A number in decimal.
pub fn decimal_u64(n: u64) -> (r: String)
    ensures
        r@ == decimal(n as nat),
{
    string_of(decimal_chars(n).as_slice())
}

/// A number in decimal with its sign.
pub fn decimal_i64(n: i64) -> (r: String)
    ensures
        r@ == signed_decimal(n as int),
{
    if n >= 0 {
        decimal_u64(n as u64)
    } else {
        let magnitude: u64 = if n == i64::MIN {
            9_223_372_036_854_775_808u64
        } else {
            (-n) as u64
        };
        proof {
            reveal_strlit("-");
            assert("-"@ =~= seq!['-']);
        }
        concat("-", decimal_u64(magnitude).as_str())
    }
}

/// A length in decimal.
pub fn decimal_usize(n: usize) -> (r: String)
    ensures
        r@ == decimal(n as nat),
{
    decimal_u64(n as u64)
}

/// Every character is a decimal digit.
pub open spec fn all_digits(s: Seq<char>) -> bool {
    forall|i: int| 0 <= i < s.len() ==> digit(#[trigger] s[i])
}

/// The value of a row of decimal digits.
pub open spec fn digits_value(s: Seq<char>) -> nat
    decreases s.len(),
{
    if s.len() == 0 {
        0
    } else {
        digits_value(s.drop_last()) * 10 + digit_value(s.last())
    }
}

/// A text without one leading sign.
pub open spec fn unsigned_part(s: Seq<char>, sign: char) -> Seq<char> {
    if s.len() > 0 && s[0] == sign {
        s.drop_first()
    } else {
        s
    }
}

/// The number that a text stands for: decimal digits, at least one, after an
/// optional plus sign.
pub open spec fn parsed_nat(s: Seq<char>) -> Option<nat> {
    let digits = unsigned_part(s, '+');
    if digits.len() > 0 && all_digits(digits) {
        Some(digits_value(digits))
    } else {
        None
    }
}

/// A row of digits has a value at least as large as any beginning of it.
pub proof fn lemma_digits_value_monotonic(s: Seq<char>, i: int)
    requires
        0 <= i <= s.len(),
        all_digits(s),
    ensures
        digits_value(s.take(i)) <= digits_value(s),
    decreases s.len(),
{
    if i < s.len() {
        assert(all_digits(s.drop_last())) by {
            assert forall|k: int| 0 <= k < s.drop_last().len() implies digit(
                #[trigger] s.drop_last()[k],
            ) by {
                assert(s.drop_last()[k] == s[k]);
            }
        }
        lemma_digits_value_monotonic(s.drop_last(), i);
        assert(s.drop_last().take(i) =~= s.take(i));
    } else {
        assert(s.take(i) =~= s);
    }
}

/// The number of 64 bits without a sign that a text stands for.
pub fn parse_u64(s: &str) -> (r: Option<u64>)
    ensures
        match r {
            Some(n) => parsed_nat(s@) == Some(n as nat),
            None => parsed_nat(s@) is None || parsed_nat(s@)->0 > u64::MAX,
        },
{
    let a: Vec<char> = chars_of(s);
    let start: usize = if a.len() > 0 && a[0] == '+' {
        1
    } else {
        0
    };
    let ghost digits = unsigned_part(s@, '+');
    proof {
        assert(digits =~= a@.skip(start as int));
    }
    if start == a.len() {
        return None;
    }
    let mut valid: bool = true;
    let mut j: usize = start;
    while j < a.len()
        invariant
            start <= j <= a@.len(),
            digits == a@.skip(start as int),
            valid == (forall|k: int| 0 <= k < j - start ==> digit(#[trigger] digits[k])),
        decreases a@.len() - j,
    {
        proof {
            assert(digits[j - start] == a@[j as int]);
        }
        if !is_digit(a[j]) {
            valid = false;
        }
        j += 1;
    }
    if !valid {
        return None;
    }
    let mut value: u64 = 0;
    let mut i: usize = start;
    proof {
        assert(digits.take(0) =~= Seq::<char>::empty());
        assert(all_digits(digits));
    }
    while i < a.len()
        invariant
            start <= i <= a@.len(),
            start < a@.len(),
            digits == a@.skip(start as int),
            digits == unsigned_part(s@, '+'),
            all_digits(digits),
            value == digits_value(digits.take(i - start)),
        decreases a@.len() - i,
    {
        let ghost next = digits.take(i - start + 1);
        proof {
            assert(digits[i - start] == a@[i as int]);
            assert(next.drop_last() =~= digits.take(i - start));
            assert(next.last() == a@[i as int]);
            lemma_digits_value_monotonic(digits, i - start + 1);
        }
        let d: u64 = (a[i] as u64) - ('0' as u64);
        match value.checked_mul(10) {
            Some(shifted) => match shifted.checked_add(d) {
                Some(sum) => {
                    value = sum;
                },
                None => {
                    return None;
                },
            },
            None => {
                return None;
            },
        }
        i += 1;
    }
    proof {
        assert(digits.take(digits.len() as int) =~= digits);
    }
    Some(value)
}

/// The number with a sign that a text stands for: decimal digits, at least
/// one, after an optional plus or minus sign.
pub open spec fn parsed_int(s: Seq<char>) -> Option<int> {
    if s.len() > 0 && s[0] == '-' {
        let digits = s.drop_first();
        if digits.len() > 0 && all_digits(digits) {
            Some(-(digits_value(digits) as int))
        } else {
            None
        }
    } else {
        match parsed_nat(s) {
            Some(n) => Some(n as int),
            None => None,
        }
    }
}

/// The number of 64 bits with a sign that a text stands for.
pub fn parse_i64(s: &str) -> (r: Option<i64>)
    ensures
        match r {
            Some(n) => parsed_int(s@) == Some(n as int),
            None => parsed_int(s@) is None || parsed_int(s@)->0 != saturated(parsed_int(s@)->0),
        },
{
    let a: Vec<char> = chars_of(s);
    if a.len() > 0 && a[0] == '-' {
        if a.len() > 1 && a[1] == '+' {
            proof {
                assert(s@.drop_first()[0] == '+');
            }
            return None;
        }
        let rest: String = crate::text::string_range(a.as_slice(), 1, a.len());
        proof {
            assert(rest@ =~= s@.drop_first());
            if rest@.len() > 0 {
                assert(rest@[0] == a@[1]);
            }
        }
        match parse_u64(rest.as_str()) {
            Some(n) => {
                if n <= 9_223_372_036_854_775_807u64 {
                    Some(-(n as i64))
                } else if n == 9_223_372_036_854_775_808u64 {
                    Some(i64::MIN)
                } else {
                    None
                }
            },
            None => None,
        }
    } else {
        match parse_u64(s) {
            Some(n) => if n <= 9_223_372_036_854_775_807u64 {
                Some(n as i64)
            } else {
                None
            },
            None => None,
        }
    }
}

/// Writing a number in decimal gives only digits, and reading them gives the
/// number back.
pub proof fn lemma_decimal_value(n: nat)
    ensures
        decimal(n).len() > 0,
        all_digits(decimal(n)),
        digits_value(decimal(n)) == n,
    decreases n,
{
    let s = decimal(n);
    if n < 10 {
        assert(s.drop_last() =~= Seq::<char>::empty());
        assert(s.last() == digit_char(n as int));
        assert(digits_value(s.drop_last()) == 0);
        assert(digit_value(s.last()) == n);
    } else {
        lemma_decimal_value(n / 10);
        assert(s.drop_last() =~= decimal(n / 10));
        assert(s.last() == digit_char((n % 10) as int));
        assert(digit_value(s.last()) == n % 10);
        assert forall|k: int| 0 <= k < s.len() implies digit(#[trigger] s[k]) by {
            if k < s.len() - 1 {
                assert(s[k] == decimal(n / 10)[k]);
            }
        }
    }
}

/// Reading back a number that was written in decimal gives that number.
pub proof fn decimal_reads_back(n: nat)
    ensures
        parsed_nat(decimal(n)) == Some(n),
{
    lemma_decimal_value(n);
    assert(digit(decimal(n)[0]));
}

/// Reading back a number that was written in decimal with its sign gives that
/// number.
pub proof fn signed_decimal_reads_back(n: int)
    ensures
        parsed_int(signed_decimal(n)) == Some(n),
{
    if n < 0 {
        lemma_decimal_value((-n) as nat);
        assert(signed_decimal(n).drop_first() =~= decimal((-n) as nat));
    } else {
        lemma_decimal_value(n as nat);
        assert(digit(decimal(n as nat)[0]));
        decimal_reads_back(n as nat);
    }
}

/// A number held within 64 bits is the number itself where it fits, and the nearest end of
/// the range where it does not; one held between two bounds likewise.
pub proof fn held_numbers_are_the_nearest(x: int, low: int, high: int)
    requires
        low <= high,
    ensures
        i64::MIN <= x <= i64::MAX ==> saturated(x) == x,
        x > i64::MAX ==> saturated(x) == 9_223_372_036_854_775_807,
        x < i64::MIN ==> saturated(x) == -9_223_372_036_854_775_808,
        low <= x <= high ==> clamped(x, low, high) == x,
        x < low ==> clamped(x, low, high) == low,
        x > high ==> clamped(x, low, high) == high,
        larger(low, high) == high && larger(high, low) == high,
        smaller(low, high) == low && smaller(high, low) == low,
{
}

}
