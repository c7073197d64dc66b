//! Exact arithmetic on numbers in the binary64 format, held as their bit patterns. Every finite
//! number of the format is a whole count of its smallest step, two to the minus 1074, so rounding
//! is stated and computed on integers alone.

use vstd::arithmetic::div_mod::{
    lemma_div_multiples_vanish, lemma_div_multiples_vanish_quotient, lemma_fundamental_div_mod,
    lemma_truncate_middle,
};
use vstd::arithmetic::power2::{
    lemma2_to64, lemma2_to64_rest, lemma_pow2_adds, lemma_pow2_pos, lemma_pow2_strictly_increases,
    lemma_pow2_unfold, pow2,
};
use vstd::prelude::*;

verus! {

/// Two to the 52nd: the weight of the leading bit of a normal significand.
pub const LEADING_BIT: u64 = 0x10_0000_0000_0000;

/// Two to the 53rd: one more than the largest significand.
pub const SIGNIFICAND_LIMIT: u128 = 0x20_0000_0000_0000;

pub const SIGN_BIT: u64 = 0x8000_0000_0000_0000;

/// The exponent field of infinities and of values that are not numbers.
pub const SPECIAL_EXPONENT: u64 = 2047;

/// An amount at or above this many units cannot be counted in millionths.
pub const AMOUNT_LIMIT: u128 = 9_223_372_036_854;

pub open spec fn exponent_field(bits: u64) -> nat {
    ((bits / LEADING_BIT) % 2048) as nat
}

pub open spec fn is_finite(bits: u64) -> bool {
    exponent_field(bits) != SPECIAL_EXPONENT
}

pub open spec fn is_negative(bits: u64) -> bool {
    bits >= SIGN_BIT
}

pub open spec fn significand(bits: u64) -> nat {
    if exponent_field(bits) == 0 {
        (bits % LEADING_BIT) as nat
    } else {
        (bits % LEADING_BIT + LEADING_BIT) as nat
    }
}

/// How many steps make one.
pub open spec fn one() -> nat {
    pow2(1074)
}

/// How many steps a number is away from zero.
pub open spec fn magnitude(bits: u64) -> nat {
    significand(bits) * pow2(
        if exponent_field(bits) == 0 {
            0
        } else {
            (exponent_field(bits) - 1) as nat
        },
    )
}

/// A number as a count of steps.
pub open spec fn steps(bits: u64) -> int {
    if is_negative(bits) {
        -(magnitude(bits) as int)
    } else {
        magnitude(bits) as int
    }
}

/// The count of units nearest to `n`; of two equally near, the even one.
pub open spec fn nearest_even(n: nat, unit: nat) -> nat {
    if 2 * (n % unit) < unit || (2 * (n % unit) == unit && (n / unit) % 2 == 0) {
        n / unit
    } else {
        n / unit + 1
    }
}

/// The count of units nearest to `n`; of two equally near, the larger one.
pub open spec fn nearest_up(n: nat, unit: nat) -> nat {
    (2 * n + unit) / (2 * unit)
}

/// The spacing of the format at `n` steps: the smallest power of two of which `n` is less than two
/// to the 53rd times as large.
pub open spec fn grain(n: nat) -> nat
    decreases n,
{
    if n < SIGNIFICAND_LIMIT {
        1
    } else {
        2 * grain(n / 2)
    }
}

/// The number of the format nearest to `n` steps, a tie going to the even significand.
pub open spec fn nearest_double(n: nat) -> nat {
    nearest_even(n, grain(n)) * grain(n)
}

/// The number of the format nearest to `n` steps in either direction.
pub open spec fn rounded(n: int) -> int {
    if n < 0 {
        -(nearest_double((-n) as nat) as int)
    } else {
        nearest_double(n as nat) as int
    }
}

/// A count of steps rounded to a whole number, a tie going to the even one.
pub open spec fn whole_ties_even(n: int) -> int {
    if n < 0 {
        -(nearest_even((-n) as nat, one()) as int)
    } else {
        nearest_even(n as nat, one()) as int
    }
}

/// The percentage that is left when a percentage is used: the difference as the format has it,
/// rounded to a whole number and kept within 0 and 100.
pub open spec fn percent_left(used: u64) -> int {
    let left = whole_ties_even(rounded(100 * one() - steps(used)));
    if left < 0 {
        0
    } else if left > 100 {
        100
    } else {
        left
    }
}

/// Whether an amount is small enough to be counted in millionths.
pub open spec fn countable(amount: u64) -> bool {
    is_finite(amount) && magnitude(amount) < AMOUNT_LIMIT * one()
}

/// An amount in millionths: the product as the format has it, rounded to a whole number, a tie
/// going away from zero.
pub open spec fn millionths(amount: u64) -> int {
    let count = nearest_up(nearest_double(magnitude(amount) * 1_000_000), one()) as int;
    if is_negative(amount) {
        -count
    } else {
        count
    }
}

/// A number without its fraction, kept within the 64-bit integers; zero for what is no number.
pub open spec fn whole_part(bits: u64) -> int {
    let count = (magnitude(bits) / one()) as int;
    if !is_finite(bits) && bits % LEADING_BIT != 0 {
        0
    } else if is_negative(bits) {
        if -count < i64::MIN {
            i64::MIN as int
        } else {
            -count
        }
    } else if count > i64::MAX {
        i64::MAX as int
    } else {
        count
    }
}

proof fn lemma_grain(n: nat)
    ensures
        grain(n) >= 1,
        grain(n) == 1 || grain(n) * LEADING_BIT <= n,
        n < grain(n) * SIGNIFICAND_LIMIT,
    decreases n,
{
    if n >= SIGNIFICAND_LIMIT {
        lemma_grain(n / 2);
    }
}

proof fn lemma_nearest_error(n: nat, unit: nat)
    requires
        unit > 0,
    ensures
        2 * (nearest_even(n, unit) * unit) <= 2 * n + unit,
        2 * n <= 2 * (nearest_even(n, unit) * unit) + unit,
        unit == 1 ==> nearest_even(n, unit) == n,
{
    lemma_fundamental_div_mod(n as int, unit as int);
    let q = (n / unit) as int;
    let u = unit as int;
    assert(u * q == q * u) by (nonlinear_arith);
    assert((q + 1) * u == q * u + u) by (nonlinear_arith);
}

proof fn lemma_double_error(n: nat)
    ensures
        SIGNIFICAND_LIMIT * (nearest_double(n) - n) <= n,
        SIGNIFICAND_LIMIT * (n - nearest_double(n)) <= n,
{
    lemma_grain(n);
    lemma_nearest_error(n, grain(n));
    if grain(n) == 1 {
        assert(nearest_double(n) == n);
    }
}

proof fn lemma_nearest_scaled(n: nat, unit: nat, k: nat)
    requires
        unit > 0,
        k > 0,
    ensures
        nearest_even(n * k, unit * k) == nearest_even(n, unit),
{
    lemma_div_multiples_vanish_quotient(k as int, n as int, unit as int);
    lemma_truncate_middle(n as int, k as int, unit as int);
    assert(n * k == k * n) by (nonlinear_arith);
    assert(unit * k == k * unit) by (nonlinear_arith);
    let r = (n % unit) as int;
    let u = unit as int;
    let c = k as int;
    assert(2 * (c * r) < c * u <==> 2 * r < u) by (nonlinear_arith)
        requires
            c > 0,
    ;
    assert(2 * (c * r) == c * u <==> 2 * r == u) by (nonlinear_arith)
        requires
            c > 0,
    ;
}

proof fn lemma_double_doubled(n: nat)
    ensures
        nearest_double(2 * n) == 2 * nearest_double(n),
{
    if 2 * n < SIGNIFICAND_LIMIT {
        lemma_nearest_error(n, 1);
        lemma_nearest_error(2 * n, 1);
    } else {
        lemma_grain(n);
        let g = grain(n);
        assert((2 * n) / 2 == n);
        assert(grain(2 * n) == 2 * g);
        lemma_nearest_scaled(n, g, 2);
        let c = nearest_even(n, g);
        assert(c * (2 * g) == 2 * (c * g)) by (nonlinear_arith);
    }
}

proof fn lemma_double_scaled(n: nat, k: nat)
    ensures
        nearest_double(n * pow2(k)) == nearest_double(n) * pow2(k),
    decreases k,
{
    lemma2_to64();
    if k == 0 {
        assert(n * 1 == n);
        assert(nearest_double(n) * 1 == nearest_double(n));
    } else {
        lemma_double_scaled(n, (k - 1) as nat);
        lemma_pow2_unfold(k);
        let p = pow2((k - 1) as nat);
        let m = nearest_double(n);
        assert(n * (2 * p) == 2 * (n * p)) by (nonlinear_arith);
        assert(m * (2 * p) == 2 * (m * p)) by (nonlinear_arith);
        lemma_double_doubled(n * p);
    }
}

/// What is hardly less than a hundred counts as a hundred.
proof fn lemma_about_a_hundred(n: nat)
    requires
        10 * n >= 999 * one(),
    ensures
        nearest_even(nearest_double(n), one()) >= 100,
{
    lemma_pow2_pos(1074);
    lemma_double_error(n);
    let unit = one();
    let v = nearest_double(n);
    let w = nearest_even(v, unit);
    lemma_nearest_error(v, unit);
    assert(10 * v >= 998 * unit);
    if w < 100 {
        assert(w * unit <= 99 * unit) by (nonlinear_arith)
            requires
                w <= 99,
        ;
    }
}

/// Two to the `k`-th.
fn power_of_two(k: u64) -> (power: u128)
    requires
        k <= 80,
    ensures
        power == pow2(k as nat),
        0 < power <= 0x1_0000_0000_0000_0000_0000,
{
    proof {
        lemma2_to64();
    }
    let mut power: u128 = 1;
    for i in 0..k
        invariant
            k <= 80,
            power == pow2(i as nat),
            0 < power <= 0x1_0000_0000_0000_0000_0000,
    {
        proof {
            lemma_pow2_unfold((i + 1) as nat);
            if i + 1 < 80 {
                lemma_pow2_strictly_increases((i + 1) as nat, 80);
            }
            lemma2_to64();
            lemma2_to64_rest();
            lemma_pow2_adds(40, 40);
        }
        power = power * 2;
    }
    power
}

/// The number of the format nearest to `n` steps.
fn round_to_double(n: u128) -> (result: u128)
    requires
        n <= 0x1_0000_0000_0000_0000_0000,
    ensures
        result == nearest_double(n as nat),
{
    let mut unit: u128 = 1;
    while n / unit >= SIGNIFICAND_LIMIT
        invariant
            n <= 0x1_0000_0000_0000_0000_0000,
            0 < unit <= 0x1_0000_0000_0000_0000_0000,
            grain(n as nat) == unit * grain((n / unit) as nat),
        decreases n / unit,
    {
        proof {
            lemma_halved_again(n as int, unit as int);
            let rest = grain((n / unit / 2) as nat) as int;
            let u = unit as int;
            assert(u * (2 * rest) == (u * 2) * rest) by (nonlinear_arith);
            lemma_fundamental_div_mod(n as int, u);
            let q = (n / unit) as int;
            assert(u * q >= u * SIGNIFICAND_LIMIT) by (nonlinear_arith)
                requires
                    q >= SIGNIFICAND_LIMIT,
                    u > 0,
            ;
        }
        unit = unit * 2;
    }
    assert(unit * 1 == unit);
    assert(grain(n as nat) == unit);
    let count: u128 = n / unit;
    let rest: u128 = n % unit;
    proof {
        lemma_fundamental_div_mod(n as int, unit as int);
        let q = count as int;
        let u = unit as int;
        assert(u * q == q * u) by (nonlinear_arith);
        assert((q + 1) * u == q * u + u) by (nonlinear_arith);
        assert(0 <= u * q) by (nonlinear_arith)
            requires
                0 <= q,
                0 < u,
        ;
    }
    if 2 * rest < unit || (2 * rest == unit && count % 2 == 0) {
        count * unit
    } else {
        (count + 1) * unit
    }
}

proof fn lemma_halved_again(n: int, unit: int)
    requires
        n >= 0,
        unit > 0,
    ensures
        n / (unit * 2) == (n / unit) / 2,
{
    vstd::arithmetic::div_mod::lemma_div_denominator(n, unit, 2);
}

fn field_of(bits: u64) -> (field: u64)
    ensures
        field == exponent_field(bits),
        field <= SPECIAL_EXPONENT,
{
    (bits / LEADING_BIT) % 2048
}

fn significand_of(bits: u64) -> (value: u128)
    ensures
        value == significand(bits),
        value < SIGNIFICAND_LIMIT,
        exponent_field(bits) > 0 ==> value >= LEADING_BIT,
{
    let fraction: u64 = bits % LEADING_BIT;
    if field_of(bits) == 0 {
        fraction as u128
    } else {
        (fraction + LEADING_BIT) as u128
    }
}

/// Whether a bit pattern stands for a number, and not for an infinity or none.
pub fn check_finite(bits: u64) -> (finite: bool)
    ensures
        finite == is_finite(bits),
{
    field_of(bits) != SPECIAL_EXPONENT
}

/// The whole percentage that is left when a percentage is used.
pub fn left_of_hundred(used: u64) -> (left: u8)
    requires
        is_finite(used),
    ensures
        left == percent_left(used),
{
    let field: u64 = field_of(used);
    let value: u128 = significand_of(used);
    proof {
        lemma_pow2_pos(1074);
    }
    if used >= SIGN_BIT {
        proof {
            lemma_about_a_hundred((100 * one() - steps(used)) as nat);
        }
        return 100;
    }
    if field <= 1012 {
        proof {
            lemma_below_a_thousandth(used);
            lemma_about_a_hundred((100 * one() - steps(used)) as nat);
        }
        return 100;
    }
    if field >= 1030 {
        proof {
            lemma_above_a_hundred(used);
            lemma_nothing_left(used);
        }
        return 0;
    }
    let scale: u128 = power_of_two(field - 1013);
    let unit: u128 = power_of_two(62);
    proof {
        lemma2_to64();
        lemma2_to64_rest();
        if field < 1029 {
            lemma_pow2_strictly_increases((field - 1013) as nat, 16);
        }
        assert(scale <= 0x1_0000);
        assert(value * scale <= 0x20_0000_0000_0000 * 0x1_0000) by (nonlinear_arith)
            requires
                value < 0x20_0000_0000_0000,
                scale <= 0x1_0000,
        ;
        lemma_pow2_adds((field - 1013) as nat, 1012);
        lemma_pow2_adds(62, 1012);
        let p = pow2(1012);
        lemma_pow2_pos(1012);
        assert(value * (scale * p) == (value * scale) * p) by (nonlinear_arith);
        assert(100 * (unit * p) == (100 * unit) * p) by (nonlinear_arith);
    }
    let taken: u128 = value * scale;
    let whole: u128 = 100 * unit;
    let ghost p = pow2(1012);
    assert(magnitude(used) == taken * p);
    assert(100 * one() == whole * p);
    if taken >= whole {
        proof {
            assert(taken * p >= whole * p) by (nonlinear_arith)
                requires
                    taken >= whole,
                    p > 0,
            ;
            lemma_nothing_left(used);
        }
        return 0;
    }
    let rest: u128 = whole - taken;
    let nearest: u128 = round_to_double(rest);
    proof {
        assert(whole * p - taken * p == (whole - taken) * p) by (nonlinear_arith);
        assert(rest * p >= 0) by (nonlinear_arith)
            requires
                rest > 0,
                p > 0,
        ;
        lemma_double_scaled(rest as nat, 1012);
        lemma_nearest_scaled(nearest as nat, unit as nat, p);
        lemma_double_error(rest as nat);
        lemma_nearest_error(nearest as nat, unit as nat);
    }
    let count: u128 = nearest / unit;
    let over: u128 = nearest % unit;
    if 2 * over < unit || (2 * over == unit && count % 2 == 0) {
        if count > 100 {
            100
        } else {
            count as u8
        }
    } else if count >= 100 {
        100
    } else {
        (count + 1) as u8
    }
}

proof fn lemma_nothing_left(used: u64)
    requires
        steps(used) >= 100 * one(),
    ensures
        percent_left(used) == 0,
{
    lemma_pow2_pos(1074);
    if steps(used) == 100 * one() {
        lemma_nearest_error(0, 1);
        assert(nearest_double(0) == 0);
        assert(0nat % one() == 0);
        assert(0nat / one() == 0);
    }
}

proof fn lemma_below_a_thousandth(bits: u64)
    requires
        exponent_field(bits) <= 1012,
    ensures
        1000 * magnitude(bits) <= one(),
{
    lemma2_to64();
    lemma2_to64_rest();
    let k: nat = if exponent_field(bits) == 0 {
        0
    } else {
        (exponent_field(bits) - 1) as nat
    };
    if k < 1011 {
        lemma_pow2_strictly_increases(k, 1011);
    }
    lemma_pow2_adds(63, 1011);
    let m = significand(bits);
    let p = pow2(k);
    let top = pow2(1011);
    assert(m * p <= 0x20_0000_0000_0000 * top) by (nonlinear_arith)
        requires
            m <= 0x20_0000_0000_0000,
            p <= top,
    ;
}

proof fn lemma_above_a_hundred(bits: u64)
    requires
        exponent_field(bits) >= 1030,
    ensures
        magnitude(bits) >= 100 * one(),
{
    lemma2_to64();
    lemma2_to64_rest();
    let k = (exponent_field(bits) - 1) as nat;
    if k > 1029 {
        lemma_pow2_strictly_increases(1029, k);
    }
    lemma_pow2_adds(45, 1029);
    let m = significand(bits);
    let p = pow2(k);
    let base = pow2(1029);
    assert(m * p >= 0x10_0000_0000_0000 * base) by (nonlinear_arith)
        requires
            m >= 0x10_0000_0000_0000,
            p >= base,
    ;
}

/// An amount in millionths, or `None` for one that is too large or no number.
pub fn to_millionths(amount: u64) -> (count: Option<i64>)
    ensures
        match count {
            Some(value) => countable(amount) && value == millionths(amount),
            None => !countable(amount),
        },
{
    let field: u64 = field_of(amount);
    let value: u128 = significand_of(amount);
    if field == SPECIAL_EXPONENT {
        return None;
    }
    if field >= 1067 || (field == 1066 && value >= AMOUNT_LIMIT * 512) {
        proof {
            lemma_beyond_the_limit(amount);
        }
        return None;
    }
    let depth: u64 = if field == 0 {
        1074
    } else {
        1075 - field
    };
    let product: u128 = value * 1_000_000;
    let nearest: u128 = round_to_double(product);
    let ghost scale = pow2((1074 - depth) as nat);
    let ghost unit = pow2(depth as nat);
    proof {
        lemma_pow2_pos((1074 - depth) as nat);
        lemma_pow2_pos(depth as nat);
        lemma_pow2_adds((1074 - depth) as nat, depth as nat);
        assert(magnitude(amount) == value * scale);
        assert((value * scale) * 1_000_000 == (value * 1_000_000) * scale) by (nonlinear_arith);
        lemma_double_scaled(product as nat, (1074 - depth) as nat);
        lemma_double_error(product as nat);
        lemma_nearest_up_scaled(nearest as nat, unit, scale);
        assert(unit * scale == scale * unit) by (nonlinear_arith);
        lemma_within_the_limit(amount, depth as nat);
        assert(AMOUNT_LIMIT * (scale * unit) == (AMOUNT_LIMIT * unit) * scale) by (nonlinear_arith);
        assert(value * scale < (AMOUNT_LIMIT * unit) * scale) by (nonlinear_arith)
            requires
                value < AMOUNT_LIMIT * unit,
                scale > 0,
        ;
        assert(countable(amount));
        assert(millionths(amount) == if is_negative(amount) {
            -(nearest_up(nearest as nat, unit) as int)
        } else {
            nearest_up(nearest as nat, unit) as int
        });
    }
    if depth >= 76 {
        proof {
            lemma2_to64();
            lemma2_to64_rest();
            lemma_pow2_adds(38, 38);
            if depth > 76 {
                lemma_pow2_strictly_increases(76, depth as nat);
            }
            let top = (2 * nearest + unit) as int;
            assert(top < 2 * unit);
            vstd::arithmetic::div_mod::lemma_basic_div(top, (2 * unit) as int);
        }
        return Some(0);
    }
    let step: u128 = power_of_two(depth);
    let count: u128 = (2 * nearest + step) / (2 * step);
    proof {
        lemma_fundamental_div_mod((2 * nearest + step) as int, (2 * step) as int);
        let c = count as int;
        let d = step as int;
        assert((2 * d) * c == 2 * (c * d)) by (nonlinear_arith);
        if c > i64::MAX {
            assert(c * d >= 0x8000_0000_0000_0000 * d) by (nonlinear_arith)
                requires
                    c >= 0x8000_0000_0000_0000,
                    d > 0,
            ;
        }
    }
    let whole: i64 = count as i64;
    if amount >= SIGN_BIT {
        Some(-whole)
    } else {
        Some(whole)
    }
}

proof fn lemma_nearest_up_scaled(n: nat, unit: nat, k: nat)
    requires
        unit > 0,
        k > 0,
    ensures
        nearest_up(n * k, unit * k) == nearest_up(n, unit),
{
    lemma_div_multiples_vanish_quotient(k as int, (2 * n + unit) as int, (2 * unit) as int);
    let a = n as int;
    let u = unit as int;
    let c = k as int;
    assert(c * (2 * a + u) == 2 * (a * c) + u * c) by (nonlinear_arith);
    assert(c * (2 * u) == 2 * (u * c)) by (nonlinear_arith);
}

proof fn lemma_beyond_the_limit(bits: u64)
    requires
        exponent_field(bits) >= 1067 || (exponent_field(bits) == 1066 && significand(bits)
            >= AMOUNT_LIMIT * 512),
    ensures
        magnitude(bits) >= AMOUNT_LIMIT * one(),
{
    lemma2_to64();
    lemma2_to64_rest();
    let k = (exponent_field(bits) - 1) as nat;
    let base = pow2(1065);
    lemma_pow2_adds(9, 1065);
    lemma_pow2_adds(1, 1065);
    if k > 1066 {
        lemma_pow2_strictly_increases(1066, k);
    }
    let m = significand(bits);
    let p = pow2(k);
    if k >= 1066 {
        assert(m * p >= 0x10_0000_0000_0000 * (2 * base)) by (nonlinear_arith)
            requires
                m >= 0x10_0000_0000_0000,
                p >= 2 * base,
        ;
    } else {
        assert(m * p >= (AMOUNT_LIMIT * 512) * base) by (nonlinear_arith)
            requires
                m >= AMOUNT_LIMIT * 512,
                p == base,
        ;
    }
}

proof fn lemma_within_the_limit(bits: u64, depth: nat)
    requires
        exponent_field(bits) <= 1066,
        exponent_field(bits) == 1066 ==> significand(bits) < AMOUNT_LIMIT * 512,
        depth == if exponent_field(bits) == 0 {
            1074int
        } else {
            1075 - exponent_field(bits)
        },
    ensures
        significand(bits) < AMOUNT_LIMIT * pow2(depth),
{
    lemma2_to64();
    lemma2_to64_rest();
    if depth > 10 {
        lemma_pow2_strictly_increases(10, depth);
    }
}

/// A number without its fraction.
pub fn to_whole(bits: u64) -> (whole: i64)
    ensures
        whole == whole_part(bits),
{
    let field: u64 = field_of(bits);
    let value: u128 = significand_of(bits);
    proof {
        lemma_pow2_pos(1074);
    }
    if field == SPECIAL_EXPONENT && bits % LEADING_BIT != 0 {
        return 0;
    }
    if field >= 1086 {
        proof {
            lemma_beyond_whole(bits);
        }
        return if bits >= SIGN_BIT {
            i64::MIN
        } else {
            i64::MAX
        };
    }
    let count: u128 = if field >= 1075 {
        let scale: u128 = power_of_two(field - 1075);
        proof {
            lemma2_to64();
            if field < 1085 {
                lemma_pow2_strictly_increases((field - 1075) as nat, 10);
            }
            assert(value * scale <= 0x1f_ffff_ffff_ffff * 1024) by (nonlinear_arith)
                requires
                    value <= 0x1f_ffff_ffff_ffff,
                    scale <= 1024,
            ;
            lemma_pow2_adds((field - 1075) as nat, 1074);
            let unit = one();
            assert(value * (scale * unit) == (value * scale) * unit) by (nonlinear_arith);
            lemma_div_multiples_vanish((value * scale) as int, unit as int);
            assert((value * scale) * unit == unit * (value * scale)) by (nonlinear_arith);
        }
        value * scale
    } else {
        let depth: u64 = if field == 0 {
            1074
        } else {
            1075 - field
        };
        let ghost unit = pow2(depth as nat);
        proof {
            let scale = pow2((1074 - depth) as nat);
            lemma_pow2_pos((1074 - depth) as nat);
            lemma_pow2_pos(depth as nat);
            lemma_pow2_adds((1074 - depth) as nat, depth as nat);
            lemma_div_multiples_vanish_quotient(scale as int, value as int, unit as int);
            assert(value * scale == scale * value) by (nonlinear_arith);
        }
        if depth >= 53 {
            proof {
                lemma2_to64();
                lemma2_to64_rest();
                if depth > 53 {
                    lemma_pow2_strictly_increases(53, depth as nat);
                }
                vstd::arithmetic::div_mod::lemma_basic_div(value as int, unit as int);
            }
            0
        } else {
            let step: u128 = power_of_two(depth);
            proof {
                vstd::arithmetic::div_mod::lemma_div_is_ordered_by_denominator(
                    value as int,
                    1,
                    step as int,
                );
            }
            value / step
        }
    };
    assert(count == magnitude(bits) / one());
    if bits >= SIGN_BIT {
        -(count as i64)
    } else {
        count as i64
    }
}

proof fn lemma_beyond_whole(bits: u64)
    requires
        exponent_field(bits) >= 1086,
    ensures
        magnitude(bits) / one() >= 0x8000_0000_0000_0000,
{
    lemma2_to64();
    lemma2_to64_rest();
    lemma_pow2_pos(1074);
    let k = (exponent_field(bits) - 1) as nat;
    if k > 1085 {
        lemma_pow2_strictly_increases(1085, k);
    }
    lemma_pow2_adds(11, 1074);
    let m = significand(bits);
    let p = pow2(k);
    let unit = one();
    assert(m * p >= 0x8000_0000_0000_0000 * unit) by (nonlinear_arith)
        requires
            m >= 0x10_0000_0000_0000,
            p >= 2048 * unit,
    ;
    lemma_div_multiples_vanish(0x8000_0000_0000_0000, unit as int);
    vstd::arithmetic::div_mod::lemma_div_is_ordered(
        (unit * 0x8000_0000_0000_0000) as int,
        (m * p) as int,
        unit as int,
    );
}

proof fn lemma_small_is_exact(n: nat)
    requires
        n < SIGNIFICAND_LIMIT,
    ensures
        nearest_double(n) == n,
{
    lemma_nearest_error(n, 1);
}

/// A whole percentage leaves exactly its complement.
pub proof fn law_whole_percentage_leaves_its_complement(used: u64, percent: nat)
    requires
        steps(used) == percent * one(),
        percent <= 100,
    ensures
        percent_left(used) == 100 - percent,
{
    lemma_pow2_pos(1074);
    let unit = one();
    let left = (100 - percent) as nat;
    assert(100 * unit - percent * unit == left * unit) by (nonlinear_arith)
        requires
            left == 100 - percent,
    ;
    lemma_small_is_exact(left);
    lemma_double_scaled(left, 1074);
    lemma_nearest_scaled(left, 1, unit);
    lemma_nearest_error(left, 1);
    assert(1 * unit == unit);
}

/// A whole amount is counted exactly, and so is the same amount below zero.
pub proof fn law_whole_amount_is_counted_exactly(amount: u64, units: nat)
    requires
        magnitude(amount) == units * one(),
        is_finite(amount),
        units < 9_007_199_254,
    ensures
        countable(amount),
        is_negative(amount) ==> millionths(amount) == -(units * 1_000_000),
        !is_negative(amount) ==> millionths(amount) == units * 1_000_000,
{
    lemma_pow2_pos(1074);
    let unit = one();
    let count = units * 1_000_000;
    assert(units * unit < AMOUNT_LIMIT * unit) by (nonlinear_arith)
        requires
            units < 9_007_199_254,
            unit > 0,
    ;
    assert((units * unit) * 1_000_000 == (units * 1_000_000) * unit) by (nonlinear_arith);
    lemma_small_is_exact(count);
    lemma_double_scaled(count, 1074);
    lemma_nearest_up_scaled(count, 1, unit);
    assert(1 * unit == unit);
    assert(2nat * 1nat == 2);
    assert((2 * count + 1) / 2 == count);
    assert(nearest_double(magnitude(amount) * 1_000_000) == count * unit);
}

/// What is left of a percentage is the whole number nearest to a hundred less what is used, up to the
/// last place of the format; all is left where nothing or less is used, and nothing where a hundred
/// and one or more is.
pub proof fn law_percent_left_is_nearest(used: u64)
    requires
        is_finite(used),
    ensures
        0 <= percent_left(used) <= 100,
        0 <= steps(used) <= 100 * one() ==> {
            let gap = percent_left(used) * one() - (100 * one() - steps(used));
            let slack = SIGNIFICAND_LIMIT * one() + 200 * one();
            -slack <= 2 * (SIGNIFICAND_LIMIT * gap) <= slack
        },
        steps(used) <= 0 ==> percent_left(used) == 100,
        steps(used) >= 101 * one() ==> percent_left(used) == 0,
{
    lemma_pow2_pos(1074);
    let unit = one();
    let n = 100 * unit - steps(used);
    if n >= 0 {
        let m = n as nat;
        lemma_double_error(m);
        let v = nearest_double(m);
        lemma_nearest_error(v, unit);
        let w = nearest_even(v, unit);
        assert(rounded(n) == v);
        assert(whole_ties_even(v as int) == w);
        if steps(used) <= 0 {
            lemma_about_a_hundred(m);
        } else if steps(used) <= 100 * unit {
            assert(v <= 101 * unit);
            assert(w <= 101) by (nonlinear_arith)
                requires
                    2 * (w * unit) <= 2 * v + unit,
                    v <= 101 * unit,
                    unit > 0,
            ;
            lemma_up_to_a_hundred(m);
            assert(percent_left(used) == w);
        }
    } else {
        let m = (-n) as nat;
        lemma_double_error(m);
        assert(rounded(n) == -(nearest_double(m) as int));
        assert(whole_ties_even(rounded(n)) <= 0);
    }
}

/// What is at most a hundred does not come to more.
proof fn lemma_up_to_a_hundred(n: nat)
    requires
        n <= 100 * one(),
    ensures
        nearest_even(nearest_double(n), one()) <= 100,
{
    lemma_pow2_pos(1074);
    lemma_double_error(n);
    let unit = one();
    let v = nearest_double(n);
    let w = nearest_even(v, unit);
    lemma_nearest_error(v, unit);
    assert(2 * v < 201 * unit);
    if w > 100 {
        assert(w * unit >= 101 * unit) by (nonlinear_arith)
            requires
                w >= 101,
        ;
    }
}

/// A number without its fraction is the whole number next to it on the side of zero, and keeps its
/// sign.
pub proof fn law_whole_part_drops_the_fraction(bits: u64)
    requires
        is_finite(bits),
        magnitude(bits) <= i64::MAX * one(),
    ensures
        ({
            let count = if is_negative(bits) {
                -whole_part(bits)
            } else {
                whole_part(bits)
            };
            &&& count * one() <= magnitude(bits) < (count + 1) * one()
            &&& count >= 0
        }),
{
    lemma_pow2_pos(1074);
    let unit = one() as int;
    let m = magnitude(bits) as int;
    lemma_fundamental_div_mod(m, unit);
    let q = m / unit;
    assert(unit * q == q * unit) by (nonlinear_arith);
    assert((q + 1) * unit == q * unit + unit) by (nonlinear_arith);
    assert(q >= 0) by (nonlinear_arith)
        requires
            m >= 0,
            unit > 0,
            q == m / unit,
    ;
    if q > i64::MAX {
        assert(q * unit >= (i64::MAX + 1) * unit) by (nonlinear_arith)
            requires
                q >= i64::MAX + 1,
                unit > 0,
        ;
        assert((i64::MAX + 1) * unit == i64::MAX * unit + unit) by (nonlinear_arith);
    }
}

/// An amount in millionths is the whole number nearest to a million times the amount, up to the last
/// place of the format, and keeps its sign.
pub proof fn law_millionths_are_nearest(amount: u64)
    requires
        countable(amount),
    ensures
        ({
            let count = if is_negative(amount) {
                -millionths(amount)
            } else {
                millionths(amount)
            };
            let exact = magnitude(amount) * 1_000_000;
            let gap = count * one() - exact;
            let slack = SIGNIFICAND_LIMIT * one() + 2 * exact;
            &&& count >= 0
            &&& -slack <= 2 * (SIGNIFICAND_LIMIT * gap) <= slack
        }),
{
    lemma_pow2_pos(1074);
    let unit = one();
    let exact = magnitude(amount) * 1_000_000;
    lemma_double_error(exact);
    let v = nearest_double(exact);
    let w = nearest_up(v, unit);
    lemma_fundamental_div_mod((2 * v + unit) as int, (2 * unit) as int);
    let r = ((2 * v + unit) as int) % ((2 * unit) as int);
    assert((2 * unit) * w == 2 * (w * unit)) by (nonlinear_arith);
    assert(0 <= r < 2 * unit);
}

/// Of two whole numbers that are equally near, the even one is left.
pub proof fn law_half_percentage_leaves_the_even_number(used: u64, percent: nat)
    requires
        2 * steps(used) == (2 * percent + 1) * one(),
        percent < 100,
    ensures
        percent_left(used) == 99 - percent || percent_left(used) == 100 - percent,
        percent_left(used) % 2 == 0,
{
    lemma_pow2_pos(1074);
    lemma_pow2_unfold(1074);
    let unit = one();
    let half = pow2(1073);
    assert(unit == 2 * half);
    let left = (99 - percent) as nat;
    let odd = 2 * left + 1;
    let n = 100 * unit - steps(used);
    assert(n == odd * half) by (nonlinear_arith)
        requires
            n == 100 * unit - steps(used),
            2 * steps(used) == (2 * percent + 1) * unit,
            unit == 2 * half,
            odd == 2 * (99 - percent) + 1,
    ;
    lemma_small_is_exact(odd);
    lemma_double_scaled(odd, 1073);
    let v = (odd * half) as nat;
    assert(nearest_double(v) == v);
    lemma_nearest_scaled(odd, 2, half);
    assert(2 * half == unit);
    assert(nearest_even(v, unit) == nearest_even(odd, 2));
    assert(odd % 2 == 1 && odd / 2 == left);
    assert(n >= 0);
    assert(rounded(n) == v);
}

/// A bit pattern is its sign, its exponent and its fraction: a number with an exponent has a leading
/// one before its fraction, and each exponent doubles it; the smallest numbers have none.
pub proof fn law_bits_are_sign_exponent_and_fraction(
    bits: u64,
    sign: int,
    exponent: nat,
    fraction: nat,
)
    requires
        sign == 0 || sign == 1,
        exponent < 2047,
        fraction < 0x10_0000_0000_0000,
        bits == sign * 0x8000_0000_0000_0000 + exponent * 0x10_0000_0000_0000 + fraction,
    ensures
        is_finite(bits),
        exponent == 0 ==> magnitude(bits) == fraction,
        exponent > 0 ==> magnitude(bits) == (0x10_0000_0000_0000 + fraction) * pow2(
            (exponent - 1) as nat,
        ),
        sign == 0 ==> steps(bits) == magnitude(bits),
        sign == 1 ==> steps(bits) == -(magnitude(bits) as int),
{
    lemma2_to64();
    let parts = sign * 2048 + exponent;
    assert(bits == parts * 0x10_0000_0000_0000 + fraction);
    assert(bits as int / 0x10_0000_0000_0000 == parts);
    assert(bits as int % 0x10_0000_0000_0000 == fraction as int);
    assert(exponent_field(bits) == exponent);
    assert(fraction * 1 == fraction);
}

} // verus!
