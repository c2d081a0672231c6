//! What numbers in double precision make of whole numbers and of their ratios.
use vstd::prelude::*;

verus! {

/// The smallest number that has 53 binary digits, which are as many as a number in
/// double precision has.
pub const PRECISE_DIGITS: u128 = 4_503_599_627_370_496;

/// The whole number nearest to a ratio; the even one where two are equally near.
pub open spec fn nearest_even(top: int, bottom: int) -> int {
    let whole = top / bottom;
    let rest = 2 * (top % bottom);
    if rest < bottom || (rest == bottom && whole % 2 == 0) {
        whole
    } else {
        whole + 1
    }
}

/// The power of two that brings a number up to a limit, by as few doublings as that
/// takes.
pub open spec fn doublings(n: int, limit: int) -> int
    decreases (if n < limit { limit - n } else { 0 }),
{
    if n <= 0 || n >= limit {
        1
    } else {
        2 * doublings(2 * n, limit)
    }
}

/// A number in double precision: its digits, times one power of two, divided by
/// another, one of which is 1.
pub struct Double {
    pub digits: u128,
    pub times: u128,
    pub by: u128,
}

/// The power of two by which the digits of a ratio are divided.
pub open spec fn digits_by(top: int, bottom: int) -> int {
    doublings(top, bottom * PRECISE_DIGITS)
}

/// The power of two by which the digits of a ratio are multiplied.
pub open spec fn digits_times(top: int, bottom: int) -> int {
    doublings(2 * bottom * PRECISE_DIGITS, top + 1)
}

/// The 53 binary digits of a ratio in double precision.
pub open spec fn ratio_digits(top: int, bottom: int) -> int {
    nearest_even(top * digits_by(top, bottom), bottom * digits_times(top, bottom))
}

/// A whole number in double precision.
pub open spec fn whole_double(n: int) -> int {
    let times = digits_times(n, 1);
    nearest_even(n, times) * times
}

/// The whole number nearest to a ratio.
fn round_even(top: u128, bottom: u128) -> (r: u128)
    requires
        0 < bottom <= 0x7fff_ffff_ffff_ffff_ffff_ffff_ffff_ffff,
        top <= 0x7fff_ffff_ffff_ffff_ffff_ffff_ffff_ffff,
    ensures
        r == nearest_even(top as int, bottom as int),
{
    let whole: u128 = top / bottom;
    let rest: u128 = 2 * (top % bottom);
    proof {
        assert(top as int / bottom as int <= top) by (nonlinear_arith)
            requires
                top >= 0,
                bottom > 0,
        ;
    }
    if rest < bottom || (rest == bottom && whole % 2 == 0) {
        whole
    } else {
        whole + 1
    }
}

/// The power of two that brings a number up to a limit.
fn doublings_to(n: u128, limit: u128) -> (r: u128)
    requires
        limit <= 0x3fff_ffff_ffff_ffff_ffff_ffff_ffff_ffff,
    ensures
        r == doublings(n as int, limit as int),
{
    if n == 0 {
        return 1;
    }
    let mut power: u128 = 1;
    let mut reached: u128 = n;
    while reached < limit
        invariant
            limit <= 0x3fff_ffff_ffff_ffff_ffff_ffff_ffff_ffff,
            0 < reached,
            power <= reached,
            power * doublings(reached as int, limit as int) == doublings(n as int, limit as int),
        decreases (if reached < limit { limit - reached } else { 0 }),
    {
        proof {
            let rest = doublings(2 * reached as int, limit as int);
            assert(power * (2 * rest) == (2 * power) * rest) by (nonlinear_arith);
        }
        power = 2 * power;
        reached = 2 * reached;
    }
    power
}

/// No power of two brings a number to twice a limit that it has not reached.
proof fn lemma_doublings(n: int, limit: int)
    requires
        0 < n,
    ensures
        1 <= doublings(n, limit),
        limit <= n * doublings(n, limit),
        n < limit ==> n * doublings(n, limit) < 2 * limit,
        n >= limit ==> doublings(n, limit) == 1,
    decreases (if n < limit { limit - n } else { 0 }),
{
    if n < limit {
        lemma_doublings(2 * n, limit);
        let rest = doublings(2 * n, limit);
        assert(n * (2 * rest) == (2 * n) * rest) by (nonlinear_arith);
    }
}

/// The whole number nearest to a ratio is on no other side of a whole number than
/// the ratio itself.
proof fn lemma_nearest_even(top: int, bottom: int, n: int)
    requires
        0 < bottom,
    ensures
        top <= n * bottom ==> nearest_even(top, bottom) <= n,
        n * bottom <= top ==> n <= nearest_even(top, bottom),
{
    let whole = top / bottom;
    let rest = top % bottom;
    vstd::arithmetic::div_mod::lemma_fundamental_div_mod(top, bottom);
    vstd::arithmetic::div_mod::lemma_mod_bound(top, bottom);
    if top <= n * bottom {
        assert(whole < n || (whole == n && rest == 0)) by (nonlinear_arith)
            requires
                top == bottom * whole + rest,
                0 <= rest < bottom,
                top <= n * bottom,
        ;
    }
    if n * bottom <= top {
        assert(n <= whole) by (nonlinear_arith)
            requires
                top == bottom * whole + rest,
                0 <= rest < bottom,
                n * bottom <= top,
        ;
    }
}

/// The whole number nearest to a larger ratio is not smaller.
proof fn lemma_nearest_even_grows(a: int, b: int, bottom: int)
    requires
        0 < bottom,
        a <= b,
    ensures
        nearest_even(a, bottom) <= nearest_even(b, bottom),
{
    let (whole, rest) = (b / bottom, b % bottom);
    vstd::arithmetic::div_mod::lemma_fundamental_div_mod(a, bottom);
    vstd::arithmetic::div_mod::lemma_mod_bound(a, bottom);
    vstd::arithmetic::div_mod::lemma_fundamental_div_mod(b, bottom);
    vstd::arithmetic::div_mod::lemma_mod_bound(b, bottom);
    assert(a / bottom < whole || (a / bottom == whole && a % bottom <= rest)) by (nonlinear_arith)
        requires
            a == bottom * (a / bottom) + a % bottom,
            b == bottom * whole + rest,
            0 <= a % bottom < bottom,
            0 <= rest < bottom,
            a <= b,
    ;
}

/// The digits of a ratio are 53, or one power of two more, and no number on the way
/// to them is large.
pub proof fn lemma_ratio(top: int, bottom: int)
    requires
        0 <= top <= 0x8000_0000_0000_0000,
        0 < bottom <= 0x8000_0000_0000_0000,
    ensures
        1 <= digits_by(top, bottom) < 0x20_0000_0000_0000_0000_0000_0000_0000,
        1 <= digits_times(top, bottom) <= 0x1_0000,
        0 <= top * digits_by(top, bottom) < 0x20_0000_0000_0000_0000_0000_0000_0000,
        0 < bottom * digits_times(top, bottom) < 0x8000_0000_0000_0000_0000,
        0 <= ratio_digits(top, bottom) <= 2 * PRECISE_DIGITS,
        top > 0 ==> PRECISE_DIGITS <= ratio_digits(top, bottom),
        top < bottom * PRECISE_DIGITS ==> digits_times(top, bottom) == 1,
{
    let low = bottom * PRECISE_DIGITS;
    let by = digits_by(top, bottom);
    let times = digits_times(top, bottom);
    lemma_doublings(2 * low, top + 1);
    if top > 0 {
        lemma_doublings(top, low);
    }
    let (a, b) = (top * by, bottom * times);
    if top < low {
        assert(times == 1);
        if top > 0 {
            assert(low <= a < 2 * low);
            assert(by <= a) by (nonlinear_arith)
                requires
                    a == top * by,
                    top >= 1,
                    by >= 1,
            ;
        } else {
            assert(a == 0) by (nonlinear_arith)
                requires
                    a == top * by,
                    top == 0,
            ;
        }
        assert(b == bottom) by (nonlinear_arith)
            requires
                b == bottom * times,
                times == 1,
        ;
    } else {
        assert(by == 1);
        assert(a == top) by (nonlinear_arith)
            requires
                a == top * by,
                by == 1,
        ;
        assert((2 * low) * times == 2 * PRECISE_DIGITS * b) by (nonlinear_arith)
            requires
                low == bottom * PRECISE_DIGITS,
                b == bottom * times,
        ;
        assert(times <= b) by (nonlinear_arith)
            requires
                b == bottom * times,
                bottom >= 1,
                times >= 1,
        ;
        if times == 1 {
            assert(b == bottom) by (nonlinear_arith)
                requires
                    b == bottom * times,
                    times == 1,
            ;
        }
    }
    lemma_nearest_even(a, b, 2 * PRECISE_DIGITS as int);
    lemma_nearest_even(a, b, PRECISE_DIGITS as int);
    lemma_nearest_even(a, b, 0);
}

/// A ratio in double precision.
pub fn ratio_double(top: u64, bottom: u64) -> (r: Double)
    requires
        0 < bottom <= 0x8000_0000_0000_0000,
        top <= 0x8000_0000_0000_0000,
    ensures
        r.digits == ratio_digits(top as int, bottom as int),
        r.by == digits_by(top as int, bottom as int),
        r.times == digits_times(top as int, bottom as int),
        r.digits <= 2 * PRECISE_DIGITS,
        1 <= r.by <= 0x7fff_ffff_ffff_ffff_ffff_ffff_ffff_ffff,
        1 <= r.times <= 0x1_0000_0000,
{
    let low: u128 = (bottom as u128) * PRECISE_DIGITS;
    let by: u128 = doublings_to(top as u128, low);
    let times: u128 = doublings_to(2 * low, top as u128 + 1);
    proof {
        lemma_ratio(top as int, bottom as int);
    }
    let digits: u128 = round_even((top as u128) * by, (bottom as u128) * times);
    Double { digits, times, by }
}

/// A higher limit takes the same doublings, or more of them.
proof fn lemma_doublings_grow(n: int, lower: int, higher: int)
    requires
        0 < n,
        lower <= higher,
    ensures
        doublings(n, lower) == doublings(n, higher) || 2 * doublings(n, lower) <= doublings(
            n,
            higher,
        ),
    decreases (if n < higher { higher - n } else { 0 }),
{
    if n < higher {
        lemma_doublings(2 * n, higher);
        if n < lower {
            lemma_doublings_grow(2 * n, lower, higher);
        }
    }
}

/// A whole number in double precision is not above the next power of two, and a
/// larger number does not become a smaller one.
pub proof fn whole_doubles_keep_their_order(a: int, b: int)
    requires
        0 <= a <= b <= i64::MAX,
    ensures
        0 <= whole_double(a) <= whole_double(b) <= 0x8000_0000_0000_0000,
        b > 0 ==> whole_double(b) > 0,
{
    let start = 2 * PRECISE_DIGITS as int;
    assert(2 * 1 * PRECISE_DIGITS == start);
    let (x, y) = (digits_times(a, 1), digits_times(b, 1));
    assert(doublings(start, 0x8000_0000_0000_0000) == 1_024) by {
        reveal_with_fuel(doublings, 12);
    }
    lemma_doublings_grow(start, b + 1, 0x8000_0000_0000_0000);
    lemma_doublings_grow(start, a + 1, b + 1);
    lemma_doublings(start, a + 1);
    lemma_doublings(start, b + 1);
    assert(1 <= y <= 1_024);
    assert(start * y <= 0x8000_0000_0000_0000) by (nonlinear_arith)
        requires
            1 <= y <= 1_024,
            start == 9_007_199_254_740_992,
    ;
    if y > 1 {
        assert(PRECISE_DIGITS * y <= b) by (nonlinear_arith)
            requires
                start * y < 2 * (b + 1),
                start == 2 * PRECISE_DIGITS,
        ;
    }
    let (p, q) = (nearest_even(a, x), nearest_even(b, y));
    lemma_nearest_even(a, x, start);
    lemma_nearest_even(a, x, 0);
    lemma_nearest_even(b, y, start);
    lemma_nearest_even(b, y, PRECISE_DIGITS as int);
    assert(a <= start * x);
    assert(p <= start);
    assert(q <= start);
    assert(q * y <= start * y) by (nonlinear_arith)
        requires
            q <= start,
            y >= 1,
    ;
    assert(0 <= p * x <= start * x) by (nonlinear_arith)
        requires
            0 <= p <= start,
            x >= 1,
    ;
    if x == y {
        lemma_nearest_even_grows(a, b, x);
        assert(p * x <= q * y) by (nonlinear_arith)
            requires
                p <= q,
                x == y,
                x >= 1,
        ;
    } else {
        assert(y > 1);
        assert(start * x <= q * y) by (nonlinear_arith)
            requires
                start == 2 * PRECISE_DIGITS,
                2 * x <= y,
                PRECISE_DIGITS <= q,
                y >= 1,
        ;
    }
    if b > 0 {
        if y == 1 {
            lemma_nearest_even(b, y, 1);
        }
        assert(q * y > 0) by (nonlinear_arith)
            requires
                q >= 1,
                y >= 1,
        ;
    }
}

/// A whole number in double precision.
pub fn to_double(n: u64) -> (r: u64)
    requires
        n <= i64::MAX,
    ensures
        r == whole_double(n as int),
        r <= 0x8000_0000_0000_0000,
        n > 0 ==> r > 0,
{
    let times: u128 = doublings_to(2 * PRECISE_DIGITS, n as u128 + 1);
    proof {
        assert(times == digits_times(n as int, 1));
        lemma_ratio(n as int, 1);
        whole_doubles_keep_their_order(n as int, n as int);
    }
    let digits: u128 = round_even(n as u128, times);
    (digits * times) as u64
}

/// A ratio of at most 1 is not above 1 in double precision, and its digits are
/// divided by a multiple of 1024.
pub proof fn parts_are_at_most_one(top: int, bottom: int)
    requires
        0 <= top <= bottom <= 0x8000_0000_0000_0000,
        0 < bottom,
    ensures
        digits_times(top, bottom) == 1,
        ratio_digits(top, bottom) <= digits_by(top, bottom),
        top > 0 ==> digits_by(top, bottom) % 1_024 == 0,
{
    let by = digits_by(top, bottom);
    let low = bottom * PRECISE_DIGITS;
    lemma_ratio(top, bottom);
    assert(top < low);
    if top > 0 {
        reveal_with_fuel(doublings, 11);
        assert(by == 1_024 * doublings(1_024 * top, low));
    }
    assert(bottom * digits_times(top, bottom) == bottom) by (nonlinear_arith)
        requires
            digits_times(top, bottom) == 1,
    ;
    assert(top * by <= by * bottom) by (nonlinear_arith)
        requires
            top <= bottom,
            by >= 1,
    ;
    lemma_nearest_even(top * by, bottom, by);
}

/// A whole number below 2^63 has at most ten more digits than fit.
proof fn lemma_few_doublings(n: int)
    requires
        0 <= n <= i64::MAX,
    ensures
        ({
            let times = digits_times(n, 1);
            times == 1 || times == 2 || times == 4 || times == 8 || times == 16 || times == 32
                || times == 64 || times == 128 || times == 256 || times == 512 || times == 1_024
        }),
{
    assert(digits_times(n, 1) == doublings(9_007_199_254_740_992, n + 1));
    reveal_with_fuel(doublings, 12);
}

/// A number that is at most a multiple of 1024, below 2^63, is not above it in
/// double precision.
pub proof fn products_stay_below(n: int, limit: int)
    requires
        0 <= n <= limit,
        n <= i64::MAX,
        limit % 1_024 == 0,
    ensures
        0 <= whole_double(n) <= limit,
{
    let start = 2 * PRECISE_DIGITS as int;
    assert(2 * 1 * PRECISE_DIGITS == start);
    let times = digits_times(n, 1);
    lemma_doublings(start, n + 1);
    assert(limit % times == 0 && times > 0) by {
        lemma_few_doublings(n);
        assert(times == 1 ==> limit % 1 == 0);
        assert(times == 2 ==> limit % 2 == 0);
        assert(times == 4 ==> limit % 4 == 0);
        assert(times == 8 ==> limit % 8 == 0);
        assert(times == 16 ==> limit % 16 == 0);
        assert(times == 32 ==> limit % 32 == 0);
        assert(times == 64 ==> limit % 64 == 0);
        assert(times == 128 ==> limit % 128 == 0);
        assert(times == 256 ==> limit % 256 == 0);
        assert(times == 512 ==> limit % 512 == 0);
        assert(times == 1_024 ==> limit % 1_024 == 0);
    }
    let whole = limit / times;
    assert(limit == whole * times) by (nonlinear_arith)
        requires
            limit % times == 0,
            times > 0,
            whole == limit / times,
    ;
    lemma_nearest_even(n, times, whole);
    lemma_nearest_even(n, times, 0);
    let digits = nearest_even(n, times);
    assert(0 <= digits * times <= whole * times) by (nonlinear_arith)
        requires
            0 <= digits <= whole,
            times > 0,
    ;
}

/// A whole number that fits into 53 binary digits is held as it is.
pub proof fn small_numbers_are_held_exactly(n: int)
    requires
        0 <= n <= 9_007_199_254_740_992,
    ensures
        whole_double(n) == n,
{
    let start = 2 * PRECISE_DIGITS as int;
    assert(2 * 1 * PRECISE_DIGITS == start);
    if n < start {
        assert(digits_times(n, 1) == 1);
        assert(n * 1 == n);
        assert(n / 1 == n && n % 1 == 0);
    } else {
        reveal_with_fuel(doublings, 3);
        assert(digits_times(n, 1) == 2);
        assert(n % 2 == 0);
        assert(nearest_even(n, 2) == n / 2);
    }
}

/// The whole number nearest to a ratio differs from it by half at most.
pub proof fn nearest_numbers_are_near(top: int, bottom: int)
    requires
        0 < bottom,
    ensures
        -bottom <= 2 * (nearest_even(top, bottom) * bottom - top) <= bottom,
{
    let (whole, rest) = (top / bottom, top % bottom);
    vstd::arithmetic::div_mod::lemma_fundamental_div_mod(top, bottom);
    vstd::arithmetic::div_mod::lemma_mod_bound(top, bottom);
    assert(whole * bottom == top - rest) by (nonlinear_arith)
        requires
            top == bottom * whole + rest,
    ;
    assert((whole + 1) * bottom == top - rest + bottom) by (nonlinear_arith)
        requires
            top == bottom * whole + rest,
    ;
}

/// A whole number in double precision differs from it by 512 at most.
pub proof fn whole_doubles_are_near(n: int)
    requires
        0 <= n <= i64::MAX,
    ensures
        -512 <= whole_double(n) - n <= 512,
{
    let times = digits_times(n, 1);
    lemma_few_doublings(n);
    nearest_numbers_are_near(n, times);
}

/// The digits of a part of a whole are its ratio, times the power of two by which they are
/// divided, but for half a digit; and that power is at least 2^52.
pub proof fn digits_of_parts_are_near(top: int, bottom: int)
    requires
        0 < top <= bottom <= 0x8000_0000_0000_0000,
    ensures
        digits_by(top, bottom) >= PRECISE_DIGITS,
        -bottom <= 2 * (ratio_digits(top, bottom) * bottom - top * digits_by(top, bottom))
            <= bottom,
{
    lemma_ratio(top, bottom);
    parts_are_at_most_one(top, bottom);
    let low = bottom * PRECISE_DIGITS;
    let by = digits_by(top, bottom);
    lemma_doublings(top, low);
    assert(by >= PRECISE_DIGITS) by (nonlinear_arith)
        requires
            low == bottom * PRECISE_DIGITS,
            low <= top * by,
            0 < top <= bottom,
            by >= 1,
    ;
    assert(bottom * digits_times(top, bottom) == bottom) by (nonlinear_arith)
        requires
            digits_times(top, bottom) == 1,
    ;
    nearest_numbers_are_near(top * by, bottom);
}

}
