//! Fractions in the binary format of double precision, and what double precision makes of a
//! fraction of a size. Everything is computed with integers, and rounded where double precision
//! rounds: when the size becomes a double, and when it is multiplied.
use vstd::arithmetic::power2::{lemma_pow2_adds, lemma_pow2_pos, lemma_pow2_unfold, pow2};
use vstd::prelude::*;

verus! {

/// The value 1 in the binary format.
pub const ONE: u64 = 0x3ff0_0000_0000_0000;

/// How many binary digits a double keeps.
pub const DIGITS: u32 = 53;

/// The values up to and with the sign bit, in units of the least one of an exponent.
pub const EXPONENT_STEP: u64 = 0x10_0000_0000_0000;

/// A double, given by its bits.
#[derive(Clone, Copy, Debug, PartialEq, Eq, Structural)]
pub struct Fraction {
    pub bits: u64,
}

/// The least number of binary digits in which `n` can be written.
pub open spec fn digits(n: nat) -> nat
    decreases n,
{
    if n == 0 {
        0
    } else {
        digits(n / 2) + 1
    }
}

/// The multiple of `unit` that is nearest to `n`. Of two that are equally near, the even one.
pub open spec fn nearest(n: nat, unit: nat) -> nat {
    let low = n / unit;
    let rest = n % unit;
    if 2 * rest < unit || (2 * rest == unit && low % 2 == 0) {
        low * unit
    } else {
        (low + 1) * unit
    }
}

/// The last place of a number with so many digits.
pub open spec fn last_place(digits: nat) -> nat {
    if digits > DIGITS {
        pow2((digits - DIGITS) as nat)
    } else {
        1
    }
}

/// What a double keeps of `n`.
pub open spec fn rounded(n: nat) -> nat {
    nearest(n, last_place(digits(n)))
}

impl Fraction {
    /// The fraction is more than zero and not more than one.
    pub open spec fn valid(self) -> bool {
        0 < self.bits <= ONE
    }

    pub open spec fn exponent(self) -> nat {
        (self.bits / EXPONENT_STEP) as nat
    }

    /// The significant digits as an integer.
    pub open spec fn significand(self) -> nat {
        let low = (self.bits % EXPONENT_STEP) as nat;
        if self.exponent() == 0 {
            low
        } else {
            low + EXPONENT_STEP as nat
        }
    }

    /// The power of two by which the significand is divided.
    pub open spec fn scale(self) -> nat {
        if self.exponent() == 0 {
            1074
        } else {
            (1075 - self.exponent()) as nat
        }
    }

    /// The fraction of `n`, in units of `2^-scale`, as double precision computes it.
    pub open spec fn of(self, n: nat) -> nat {
        rounded(rounded(n) * self.significand())
    }

    /// The fraction of `n`, rounded up to an integer.
    pub open spec fn part_up(self, n: nat) -> nat {
        let scale = pow2(self.scale());
        let whole = self.of(n) / scale;
        if self.of(n) % scale == 0 {
            whole
        } else {
            whole + 1
        }
    }

    /// The fraction of `n`, rounded down to an integer.
    pub open spec fn part_down(self, n: nat) -> nat {
        self.of(n) / pow2(self.scale())
    }

    pub fn is_valid(&self) -> (r: bool)
        ensures
            r == self.valid(),
    {
        0 < self.bits && self.bits <= ONE
    }
}

proof fn lemma_digits(n: nat)
    ensures
        n < pow2(digits(n)),
        n > 0 ==> digits(n) > 0 && pow2((digits(n) - 1) as nat) <= n,
    decreases n,
{
    lemma_pow2_pos(0);
    assert(pow2(0) == 1) by {
        vstd::arithmetic::power::lemma_pow0(2);
    }
    if n > 0 {
        lemma_digits(n / 2);
        lemma_pow2_unfold(digits(n));
        if n / 2 > 0 {
            lemma_pow2_unfold((digits(n) - 1) as nat);
        }
    }
}

proof fn lemma_pow2_order(a: nat, b: nat)
    requires
        a <= b,
    ensures
        pow2(a) <= pow2(b),
{
    if a < b {
        vstd::arithmetic::power2::lemma_pow2_strictly_increases(a, b);
    }
}

/// A number below a power of two has no more digits than its exponent.
proof fn lemma_digits_bound(n: nat, d: nat)
    requires
        n < pow2(d),
    ensures
        digits(n) <= d,
{
    if digits(n) > d {
        lemma_digits(n);
        lemma_pow2_order(d, (digits(n) - 1) as nat);
    }
}

/// Rounding does not leave the next power of two.
proof fn lemma_rounded_bound(n: nat, d: nat)
    requires
        n < pow2(d),
    ensures
        rounded(n) <= pow2(d),
{
    let unit = last_place(digits(n));
    lemma_digits_bound(n, d);
    let u: nat = if digits(n) > DIGITS {
        (digits(n) - DIGITS) as nat
    } else {
        0
    };
    assert(pow2(0) == 1) by {
        vstd::arithmetic::power::lemma_pow0(2);
    }
    assert(unit == pow2(u));
    lemma_pow2_pos(u);
    lemma_pow2_adds(u, (d - u) as nat);
    let k = pow2((d - u) as nat);
    let low = n / unit;
    assert(pow2(d) == unit * k);
    assert(low < k) by (nonlinear_arith)
        requires
            n < unit * k,
            unit > 0,
            low == n / unit,
    ;
    assert((low + 1) * unit <= unit * k) by (nonlinear_arith)
        requires
            low < k,
            unit > 0,
    ;
    assert(low * unit <= unit * k) by (nonlinear_arith)
        requires
            low < k,
            unit > 0,
    ;
}

/// `2^n`.
fn power(n: u32) -> (r: u128)
    requires
        n < 128,
    ensures
        r == pow2(n as nat),
        r > 0,
{
    let mut r: u128 = 1;
    let mut i: u32 = 0;
    proof {
        vstd::arithmetic::power::lemma_pow0(2);
    }
    while i < n
        invariant
            i <= n,
            n < 128,
            r == pow2(i as nat),
            r > 0,
        decreases n - i,
    {
        proof {
            lemma_pow2_unfold((i + 1) as nat);
            lemma_pow2_order((i + 1) as nat, 127);
            lemma_127();
        }
        r = r * 2;
        i += 1;
    }
    r
}

proof fn lemma_127()
    ensures
        pow2(127) == 0x8000_0000_0000_0000_0000_0000_0000_0000,
        pow2(64) == 0x1_0000_0000_0000_0000,
        pow2(53) == 0x20_0000_0000_0000,
        pow2(63) == 0x8000_0000_0000_0000,
{
    vstd::arithmetic::power2::lemma2_to64();
    vstd::arithmetic::power2::lemma2_to64_rest();
    lemma_pow2_adds(64, 63);
}

fn count_digits(n: u128) -> (r: u32)
    ensures
        r == digits(n as nat),
        r <= 128,
{
    let mut left: u128 = n;
    let mut r: u32 = 0;
    proof {
        lemma_pow2_adds(64, 64);
        lemma_127();
        lemma_digits_bound(n as nat, 128);
    }
    while left > 0
        invariant
            digits(n as nat) == digits(left as nat) + r,
            digits(n as nat) <= 128,
        decreases left,
    {
        left = left / 2;
        r += 1;
    }
    r
}

/// What a double keeps of `n`.
fn round(n: u128) -> (r: u128)
    requires
        n < pow2(126),
    ensures
        r == rounded(n as nat),
{
    let length = count_digits(n);
    proof {
        lemma_digits_bound(n as nat, 126);
        lemma_rounded_bound(n as nat, 126);
        lemma_pow2_order(126, 127);
        lemma_127();
    }
    if length <= DIGITS {
        assert(nearest(n as nat, 1) == n) by {
            assert(n % 1 == 0);
            assert(n / 1 == n);
        }
        return n;
    }
    let unit = power(length - DIGITS);
    let low = n / unit;
    let rest = n % unit;
    proof {
        let u = unit as int;
        vstd::arithmetic::div_mod::lemma_fundamental_div_mod(n as int, u);
        assert(low * u <= n) by (nonlinear_arith)
            requires
                n == u * (n as int / u) + n as int % u,
                low == n as int / u,
                n as int % u >= 0,
        ;
        lemma_pow2_order((length - DIGITS) as nat, 73);
        lemma_pow2_adds(73, 53);
        lemma_127();
    }
    if 2 * rest < unit || (2 * rest == unit && low % 2 == 0) {
        low * unit
    } else {
        proof {
            assert((low + 1) * unit == rounded(n as nat));
            assert(low + 1 <= n + 1);
        }
        (low + 1) * unit
    }
}

impl Fraction {
    /// The fraction of `n` in units of `2^-scale`, and the scale.
    fn product(&self, n: u64) -> (r: (u128, u32))
        requires
            self.valid(),
        ensures
            r.0 == self.of(n as nat),
            r.1 == self.scale(),
            r.0 <= pow2(118),
            52 <= r.1 <= 1074,
    {
        let exponent: u64 = self.bits / EXPONENT_STEP;
        let low: u64 = self.bits % EXPONENT_STEP;
        let significand: u64 = if exponent == 0 {
            low
        } else {
            low + EXPONENT_STEP
        };
        let scale: u32 = if exponent == 0 {
            1074
        } else {
            1075 - exponent as u32
        };
        proof {
            lemma_127();
            lemma_pow2_order(64, 126);
            lemma_rounded_bound(n as nat, 64);
        }
        let size = round(n as u128);
        proof {
            assert(size <= pow2(64));
            assert(significand < pow2(53));
            lemma_pow2_adds(64, 53);
            assert(size * significand < pow2(64) * pow2(53) || size * significand == 0) by (
                nonlinear_arith)
                requires
                    size <= pow2(64),
                    significand < pow2(53),
                    pow2(64) > 0,
            ;
            lemma_pow2_pos(117);
            lemma_pow2_order(117, 118);
            lemma_pow2_order(117, 126);
            lemma_pow2_order(117, 127);
            lemma_rounded_bound((size * significand) as nat, 117);
            assert(pow2(117) < pow2(127)) by {
                vstd::arithmetic::power2::lemma_pow2_strictly_increases(117, 127);
            }
        }
        let exact: u128 = size * significand as u128;
        (round(exact), scale)
    }

    /// The fraction of `n`, rounded up to an integer, and the greatest `u64` where it does not fit.
    pub fn up(&self, n: u64) -> (r: u64)
        requires
            self.valid(),
        ensures
            r == (if self.part_up(n as nat) <= u64::MAX {
                self.part_up(n as nat)
            } else {
                u64::MAX as nat
            }),
    {
        let (product, scale) = self.product(n);
        if scale >= 120 {
            proof {
                vstd::arithmetic::power2::lemma_pow2_strictly_increases(118, scale as nat);
                vstd::arithmetic::div_mod::lemma_basic_div(product as int, pow2(scale as nat) as int);
                vstd::arithmetic::div_mod::lemma_small_mod(product as nat, pow2(scale as nat));
            }
            return if product == 0 {
                0
            } else {
                1
            };
        }
        let unit = power(scale);
        let whole = product / unit;
        let rest = product % unit;
        proof {
            self.lemma_whole(n, product, scale);
        }
        let part = if rest == 0 {
            whole
        } else {
            whole + 1
        };
        if part > u64::MAX as u128 {
            u64::MAX
        } else {
            part as u64
        }
    }

    /// The fraction of `n`, rounded down to an integer, and the greatest `u64` where it does not
    /// fit.
    pub fn down(&self, n: u64) -> (r: u64)
        requires
            self.valid(),
        ensures
            r == (if self.part_down(n as nat) <= u64::MAX {
                self.part_down(n as nat)
            } else {
                u64::MAX as nat
            }),
    {
        let (product, scale) = self.product(n);
        if scale >= 120 {
            proof {
                vstd::arithmetic::power2::lemma_pow2_strictly_increases(118, scale as nat);
                vstd::arithmetic::div_mod::lemma_basic_div(product as int, pow2(scale as nat) as int);
            }
            return 0;
        }
        let whole = product / power(scale);
        if whole > u64::MAX as u128 {
            u64::MAX
        } else {
            whole as u64
        }
    }

    proof fn lemma_whole(self, n: u64, product: u128, scale: u32)
        requires
            product <= pow2(118),
            52 <= scale < 120,
        ensures
            product as nat / pow2(scale as nat) < u128::MAX,
    {
        lemma_pow2_pos(scale as nat);
        lemma_pow2_order(118, 127);
        lemma_127();
        let unit = pow2(scale as nat) as int;
        assert(product as int / unit <= product) by (nonlinear_arith)
            requires
                unit > 0,
                product >= 0,
        ;
    }
}

/// The number of binary digits: a number lies between the powers of two on either side of it.
pub proof fn law_digits(n: nat, d: nat)
    requires
        n > 0,
        d > 0,
        pow2((d - 1) as nat) <= n < pow2(d),
    ensures
        digits(n) == d,
{
    lemma_digits(n);
    lemma_digits_bound(n, d);
    if digits(n) < d {
        lemma_pow2_order(digits(n), (d - 1) as nat);
    }
}

/// The nearest multiple is one, is no further than half a unit away, and is even where two are equally
/// near.
pub proof fn law_nearest(n: nat, unit: nat)
    requires
        unit > 0,
    ensures
        nearest(n, unit) as int % unit as int == 0,
        2 * (nearest(n, unit) - n) <= unit,
        2 * (n - nearest(n, unit)) <= unit,
        2 * (nearest(n, unit) - n) == unit || 2 * (n - nearest(n, unit)) == unit ==> (nearest(n, unit)
            / unit) % 2 == 0,
{
    let low = (n / unit) as int;
    let u = unit as int;
    vstd::arithmetic::div_mod::lemma_fundamental_div_mod(n as int, u);
    vstd::arithmetic::div_mod::lemma_mod_multiples_basic(low, u);
    vstd::arithmetic::div_mod::lemma_mod_multiples_basic(low + 1, u);
    vstd::arithmetic::div_mod::lemma_div_multiples_vanish(low, u);
    vstd::arithmetic::div_mod::lemma_div_multiples_vanish(low + 1, u);
    assert((low + 1) * u == low * u + u) by (nonlinear_arith);
    assert(u * low == low * u) by (nonlinear_arith);
    assert(u * (low + 1) == (low + 1) * u) by (nonlinear_arith);
    assert(n == low * u + n as int % u);
}

/// A double keeps a number of up to 53 binary digits as it is, and rounds a longer one to its first
/// 53.
pub proof fn law_double_keeps_53_digits(n: nat, d: nat)
    requires
        n > 0,
        d > 0,
        pow2((d - 1) as nat) <= n < pow2(d),
    ensures
        d <= 53 ==> rounded(n) == n,
        d > 53 ==> {
            let unit = pow2((d - 53) as nat) as int;
            &&& rounded(n) as int % unit == 0
            &&& 2 * (rounded(n) - n) <= unit
            &&& 2 * (n - rounded(n)) <= unit
        },
{
    law_digits(n, d);
    if d > 53 {
        lemma_pow2_pos((d - 53) as nat);
        law_nearest(n, pow2((d - 53) as nat));
    } else {
        assert(n as int % 1 == 0);
        assert(n as int / 1 == n);
    }
}

/// Rounding down gives the greatest integer that is not more than the fraction, and rounding up the
/// least that is not less.
pub proof fn law_parts_bracket(fraction: Fraction, n: nat)
    ensures
        ({
            let scale = pow2(fraction.scale()) as int;
            let down = fraction.part_down(n) as int;
            let up = fraction.part_up(n) as int;
            &&& down * scale <= fraction.of(n) < (down + 1) * scale
            &&& (up - 1) * scale < fraction.of(n) <= up * scale
            &&& down <= up <= down + 1
        }),
{
    lemma_pow2_pos(fraction.scale());
    let scale = pow2(fraction.scale()) as int;
    let of = fraction.of(n) as int;
    let whole = of / scale;
    vstd::arithmetic::div_mod::lemma_fundamental_div_mod(of, scale);
    vstd::arithmetic::div_mod::lemma_mod_bound(of, scale);
    assert(scale * whole == whole * scale) by (nonlinear_arith);
    assert((whole + 1) * scale == whole * scale + scale) by (nonlinear_arith);
    assert((whole - 1) * scale == whole * scale - scale) by (nonlinear_arith);
}

/// The bits of a double count its values: from one value to the next the last place grows by one, and
/// with each step of the exponent the same digits stand for twice as much.
pub proof fn law_bits_count_the_values(fraction: Fraction, next: Fraction, double: Fraction)
    requires
        fraction.valid(),
        next.bits == fraction.bits + 1,
        double.bits == fraction.bits + EXPONENT_STEP,
        double.valid(),
    ensures
        next.exponent() == fraction.exponent() ==> next.significand() == fraction.significand() + 1
            && next.scale() == fraction.scale(),
        fraction.exponent() > 0 ==> double.significand() == fraction.significand() && double.scale() + 1
            == fraction.scale(),
{
    let b = fraction.bits as int;
    let s = EXPONENT_STEP as int;
    vstd::arithmetic::div_mod::lemma_fundamental_div_mod(b, s);
    vstd::arithmetic::div_mod::lemma_fundamental_div_mod(b + 1, s);
    vstd::arithmetic::div_mod::lemma_fundamental_div_mod(b + s, s);
    vstd::arithmetic::div_mod::lemma_mod_bound(b, s);
    vstd::arithmetic::div_mod::lemma_mod_bound(b + s, s);
    assert((b + s) / s == b / s + 1 && (b + s) % s == b % s) by (nonlinear_arith)
        requires
            b >= 0,
            s == 0x10_0000_0000_0000,
    ;
}

/// The whole of a size is the size, as far as a double keeps it: a fraction of one takes nothing away.
pub proof fn law_one_is_the_whole(n: nat)
    requires
        n < pow2(53),
    ensures
        (Fraction { bits: ONE }).part_up(n) == n,
        (Fraction { bits: ONE }).part_down(n) == n,
{
    let one = Fraction { bits: ONE };
    lemma_127();
    vstd::arithmetic::power2::lemma2_to64();
    assert(ONE / EXPONENT_STEP == 1023 && ONE % EXPONENT_STEP == 0);
    assert(one.scale() == 52);
    assert(one.significand() == 0x10_0000_0000_0000);
    vstd::arithmetic::power2::lemma2_to64_rest();
    assert(pow2(52) == 0x10_0000_0000_0000);
    if n > 0 {
        lemma_digits(n);
        lemma_digits_bound(n, 53);
        law_double_keeps_53_digits(n, digits(n));
    } else {
        assert(nearest(0, 1) == 0);
    }
    assert(rounded(n) == n);
    let whole = n * pow2(52);
    assert(rounded(whole) == whole) by {
        if n > 0 {
            let d = digits(n);
            lemma_pow2_adds(d, 52);
            lemma_pow2_adds((d - 1) as nat, 52);
            assert(pow2((d - 1) as nat) * pow2(52) <= n * pow2(52) < pow2(d) * pow2(52)) by (
                nonlinear_arith)
                requires
                    pow2((d - 1) as nat) <= n < pow2(d),
                    pow2(52) > 0,
            ;
            law_digits(whole, d + 52);
            let unit = last_place(d + 52);
            if d > 1 {
                let k = pow2((53 - d) as nat);
                lemma_pow2_adds((d - 1) as nat, (53 - d) as nat);
                lemma_pow2_pos((d - 1) as nat);
                assert(unit == pow2((d - 1) as nat));
                assert(whole == (n * k) * unit) by (nonlinear_arith)
                    requires
                        whole == n * pow2(52),
                        pow2(52) == unit * k,
                ;
                vstd::arithmetic::div_mod::lemma_mod_multiples_basic((n * k) as int, unit as int);
                vstd::arithmetic::div_mod::lemma_div_multiples_vanish((n * k) as int, unit as int);
                assert((unit as int) * ((n * k) as int) == (n * k) * unit) by (nonlinear_arith);
            } else {
                assert(whole as int % 1 == 0);
                assert(whole as int / 1 == whole);
            }
        }
    }
    vstd::arithmetic::div_mod::lemma_mod_multiples_basic(n as int, pow2(52) as int);
    vstd::arithmetic::div_mod::lemma_div_multiples_vanish(n as int, pow2(52) as int);
    assert((pow2(52) as int) * (n as int) == n * pow2(52)) by (nonlinear_arith);
}

} // verus!
