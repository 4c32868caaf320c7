//! IEEE 754 single-precision values, held by their bit pattern.
//!
//! The voice settings are single-precision numbers. How two of them compare,
//! and what a sample becomes when it is multiplied by one, is computed on the
//! bits.

use crate::text;
use vstd::arithmetic::power2;
use vstd::prelude::*;

verus! {

/// A single-precision value.
#[derive(Debug, Clone, Copy)]
pub struct Single {
    /// The IEEE 754 binary32 encoding: sign, eight exponent bits, 23 fraction
    /// bits.
    pub bits: u32,
}

impl PartialEq for Single {
    /// IEEE 754 equality: the two zeros are equal, and what is not a number is
    /// equal to nothing.
    fn eq(&self, other: &Self) -> (r: bool) {
        let a: u32 = self.bits % 0x8000_0000;
        let b: u32 = other.bits % 0x8000_0000;
        proof {
            lemma_magnitude_order(a as nat, b as nat);
            lemma_magnitude_order(0, a as nat);
            lemma_magnitude_order(0, b as nat);
            assert(magnitude(0) == 0);
        }
        a <= 0x7f80_0000 && b <= 0x7f80_0000 && (self.bits == other.bits || (a == 0 && b == 0))
    }
}

impl vstd::std_specs::cmp::PartialEqSpecImpl for Single {
    open spec fn obeys_eq_spec() -> bool {
        true
    }

    open spec fn eq_spec(&self, other: &Self) -> bool {
        !self.nan() && !other.nan() && self.value() == other.value()
    }
}

/// The bits below the sign.
pub open spec fn magnitude_bits(bits: u32) -> nat {
    (bits % 0x8000_0000) as nat
}

/// What a magnitude encodes, in units of the smallest positive single (2 to
/// the power -149). The pattern of infinity takes the place that follows the
/// largest finite number.
pub open spec fn magnitude(m: nat) -> nat {
    let exponent = m / 0x80_0000;
    let fraction = m % 0x80_0000;
    if exponent == 0 {
        fraction
    } else {
        (0x80_0000 + fraction) * power2::pow2((exponent - 1) as nat)
    }
}

impl Single {
    /// Whether the value is not a number.
    pub open spec fn nan(self) -> bool {
        magnitude_bits(self.bits) > 0x7f80_0000
    }

    /// The value in units of 2 to the power -149. Both zeros have the value 0.
    pub open spec fn value(self) -> int {
        if self.bits < 0x8000_0000 {
            magnitude(magnitude_bits(self.bits)) as int
        } else {
            -(magnitude(magnitude_bits(self.bits)) as int)
        }
    }

    /// IEEE 754 `<`: false where one of the two is not a number.
    pub open spec fn below(self, other: Single) -> bool {
        !self.nan() && !other.nan() && self.value() < other.value()
    }

    /// `self` brought into `min` to `max`. What is not a number stays so.
    pub open spec fn clamped(self, min: Single, max: Single) -> Single {
        if self.below(min) {
            min
        } else if max.below(self) {
            max
        } else {
            self
        }
    }

    /// Whether the value differs from 1 by less than 2 to the power -23, the
    /// distance from 1 to the next larger single.
    pub open spec fn near_one(self) -> bool {
        !self.nan() && -(power2::pow2(126) as int) < self.value() - power2::pow2(149) < power2::pow2(126)
    }

    /// The value with the given encoding.
    pub fn from_bits(bits: u32) -> (r: Single)
        ensures
            r.bits == bits,
    {
        Single { bits }
    }

    /// Whether the value is not a number.
    pub fn is_nan(self) -> (r: bool)
        ensures
            r == self.nan(),
    {
        self.bits % 0x8000_0000 > 0x7f80_0000
    }

    /// IEEE 754 `<`.
    pub fn less(self, other: Single) -> (r: bool)
        ensures
            r == self.below(other),
    {
        let a: u32 = self.bits % 0x8000_0000;
        let b: u32 = other.bits % 0x8000_0000;
        if a > 0x7f80_0000 || b > 0x7f80_0000 {
            return false;
        }
        proof {
            lemma_magnitude_order(a as nat, b as nat);
            lemma_magnitude_order(0, a as nat);
            lemma_magnitude_order(0, b as nat);
            assert(magnitude(0) == 0);
        }
        if self.bits < 0x8000_0000 {
            other.bits < 0x8000_0000 && a < b
        } else if other.bits < 0x8000_0000 {
            a > 0 || b > 0
        } else {
            b < a
        }
    }

    /// Brings the value into `min` to `max`.
    pub fn clamp(self, min: Single, max: Single) -> (r: Single)
        ensures
            r == self.clamped(min, max),
    {
        if self.less(min) {
            min
        } else if max.less(self) {
            max
        } else {
            self
        }
    }

    /// Whether the value is 1, up to the precision of the format.
    pub fn is_near_one(self) -> (r: bool)
        ensures
            r == self.near_one(),
    {
        let r = self.bits == 0x3f80_0000 || self.bits == 0x3f7f_ffff;
        proof {
            lemma_around_one();
            let m = magnitude_bits(self.bits);
            lemma_magnitude_order(m, 0x3f7f_fffe);
            lemma_magnitude_order(0x3f80_0001, m);
            lemma_magnitude_order(m, 0x3f80_0001);
            lemma_magnitude_order(0x3f7f_fffe, m);
            power2::lemma_pow2_pos(126);
            power2::lemma_pow2_pos(149);
            power2::lemma_pow2_strictly_increases(126, 149);
        }
        r
    }
}

proof fn lemma_magnitude_step(m: nat)
    ensures
        magnitude(m) < magnitude(m + 1),
{
    let e = m / 0x80_0000;
    let f = m % 0x80_0000;
    if f + 1 < 0x80_0000 {
        assert((m + 1) / 0x80_0000 == e);
        assert((m + 1) % 0x80_0000 == f + 1);
        if e > 0 {
            let p = power2::pow2((e - 1) as nat);
            power2::lemma_pow2_pos((e - 1) as nat);
            assert((0x80_0000 + f) * p < (0x80_0000 + f + 1) * p) by (nonlinear_arith)
                requires
                    p > 0,
            ;
        }
    } else {
        assert((m + 1) / 0x80_0000 == e + 1);
        assert((m + 1) % 0x80_0000 == 0);
        let p = power2::pow2(e);
        power2::lemma_pow2_pos(e);
        if e == 0 {
            assert(0x80_0000 * p >= 0x80_0000) by (nonlinear_arith)
                requires
                    p >= 1,
            ;
        } else {
            let q = power2::pow2((e - 1) as nat);
            power2::lemma_pow2_unfold(e);
            power2::lemma_pow2_pos((e - 1) as nat);
            assert((0x80_0000 + f) * q < 0x80_0000 * p) by (nonlinear_arith)
                requires
                    p == 2 * q,
                    q > 0,
                    f < 0x80_0000,
            ;
        }
    }
}

proof fn lemma_magnitude_grows(a: nat, b: nat)
    requires
        a < b,
    ensures
        magnitude(a) < magnitude(b),
    decreases b - a,
{
    if a + 1 < b {
        lemma_magnitude_grows(a, (b - 1) as nat);
    }
    lemma_magnitude_step((b - 1) as nat);
}

pub(crate) proof fn lemma_magnitude_order(a: nat, b: nat)
    ensures
        a < b <==> magnitude(a) < magnitude(b),
        a == b <==> magnitude(a) == magnitude(b),
{
    if a < b {
        lemma_magnitude_grows(a, b);
    } else if b < a {
        lemma_magnitude_grows(b, a);
    }
}

/// A number in a range of positive numbers has its encoding in the range of
/// theirs.
pub proof fn lemma_range_of_bits(x: Single, min: Single, max: Single)
    requires
        0 < min.bits <= max.bits < 0x7f80_0000,
        !x.nan(),
    ensures
        min.bits <= x.clamped(min, max).bits <= max.bits,
{
    let m = magnitude_bits(x.bits);
    lemma_magnitude_order(m, min.bits as nat);
    lemma_magnitude_order(max.bits as nat, m);
    lemma_magnitude_order(0, min.bits as nat);
    assert(magnitude(0) == 0);
}

/// A positive finite number is less than 2 to the power 277 units.
pub proof fn lemma_units_of_bits(x: Single)
    requires
        x.bits < 0x7f80_0000,
    ensures
        x.value() < power2::pow2(277),
{
    power2::lemma2_to64();
    power2::lemma_pow2_adds(23, 254);
    lemma_magnitude_order(x.bits as nat, 0x7f80_0000);
    assert(0x7f80_0000nat / 0x80_0000 == 255);
    assert(0x7f80_0000nat % 0x80_0000 == 0);
    assert(magnitude(0x7f80_0000) == power2::pow2(277));
}

/// Bringing two numbers into a range of positive numbers keeps their order.
pub proof fn lemma_clamped_order(x: Single, y: Single, min: Single, max: Single)
    requires
        0 < min.bits <= max.bits < 0x7f80_0000,
        !x.nan(),
        !y.nan(),
        x.value() <= y.value(),
    ensures
        0 < x.clamped(min, max).value() <= y.clamped(min, max).value() <= max.value(),
{
    lemma_positive_order(min, max);
    lemma_clamp_result(x, min, max);
    lemma_clamp_result(y, min, max);
}

proof fn lemma_positive_order(a: Single, b: Single)
    requires
        0 < a.bits <= b.bits < 0x7f80_0000,
    ensures
        !a.nan(),
        !b.nan(),
        0 < a.value() <= b.value(),
{
    lemma_magnitude_order(0, a.bits as nat);
    lemma_magnitude_order(b.bits as nat, a.bits as nat);
    assert(magnitude(0) == 0);
}

pub(crate) proof fn lemma_clamp_result(x: Single, min: Single, max: Single)
    requires
        !x.nan(),
        !min.nan(),
        !max.nan(),
        min.value() <= max.value(),
    ensures
        x.value() < min.value() ==> x.clamped(min, max).value() == min.value(),
        x.value() > max.value() ==> x.clamped(min, max).value() == max.value(),
        min.value() <= x.value() <= max.value() ==> x.clamped(min, max).value() == x.value(),
{
    if x.value() < min.value() {
        assert(x.below(min));
        assert(x.clamped(min, max) == min);
    } else if x.value() > max.value() {
        assert(!x.below(min) && max.below(x));
        assert(x.clamped(min, max) == max);
    } else {
        assert(!x.below(min) && !max.below(x));
        assert(x.clamped(min, max) == x);
    }
}

/// The encodings next to that of 1, and what they encode.
pub(crate) proof fn lemma_around_one()
    ensures
        magnitude(0x3f80_0000) == power2::pow2(149),
        magnitude(0x3f7f_fffe) == power2::pow2(149) - power2::pow2(126),
        magnitude(0x3f80_0001) == power2::pow2(149) + power2::pow2(126),
{
    power2::lemma2_to64();
    power2::lemma_pow2_adds(23, 126);
    power2::lemma_pow2_adds(1, 125);
    assert(power2::pow2(23) == 0x80_0000);
    assert(0x3f80_0000nat / 0x80_0000 == 127);
    assert(0x3f7f_fffenat / 0x80_0000 == 126);
    let p = power2::pow2(126);
    let q = power2::pow2(125);
    assert(p == 2 * q);
    assert(0x80_0000 * p == power2::pow2(149));
    assert((0x80_0000 + 1) * p == power2::pow2(149) + p) by (nonlinear_arith)
        requires
            0x80_0000 * p == power2::pow2(149),
    ;
    assert((0x80_0000 + 0x7f_fffe) * q == power2::pow2(149) - p) by (nonlinear_arith)
        requires
            p == 2 * q,
            0x80_0000 * p == power2::pow2(149),
    ;
}

/// 1 is neutral, and stays so in every range of positive numbers around it.
pub proof fn lemma_one_is_neutral(x: Single, min: Single, max: Single)
    requires
        x.bits == 0x3f80_0000,
        min.bits <= x.bits <= max.bits < 0x7f80_0000,
    ensures
        x.clamped(min, max) == x,
        x.near_one(),
{
    lemma_around_one();
    lemma_magnitude_order(x.bits as nat, min.bits as nat);
    lemma_magnitude_order(max.bits as nat, x.bits as nat);
    power2::lemma_pow2_pos(126);
}

// ---- scaling a sample ----------------------------------------------------

/// How many binary digits a number has beyond the 24 of a single.
pub open spec fn excess(n: nat) -> nat
    decreases n,
{
    if n < 0x100_0000 {
        0
    } else {
        1 + excess(n / 2)
    }
}

/// The number with 24 significant binary digits that is nearest; of two that
/// are equally near, the one whose last digit is even.
pub open spec fn rounded(n: nat) -> nat {
    let unit = power2::pow2(excess(n));
    let q = n / unit;
    let r = n % unit;
    if 2 * r > unit || (2 * r == unit && q % 2 == 1) {
        (q + 1) * unit
    } else {
        q * unit
    }
}

impl Single {
    /// The magnitude of the product with an integer, as single-precision
    /// multiplication rounds it, without what is behind the point.
    pub open spec fn whole_product(self, s: nat) -> nat {
        rounded(s * magnitude(magnitude_bits(self.bits))) / power2::pow2(149)
    }

    /// What a sample becomes when it is multiplied by the value: the product,
    /// rounded to a single, kept in the range of a sample, and cut off behind
    /// the point. A factor that is not a number makes every sample zero.
    pub open spec fn scaled(self, s: i16) -> i16 {
        if self.nan() {
            0
        } else {
            let t = self.whole_product(
                if s < 0 {
                    -s as nat
                } else {
                    s as nat
                },
            );
            if (s < 0) == (self.bits >= 0x8000_0000) {
                if t <= 32767 {
                    t as i16
                } else {
                    32767
                }
            } else {
                if t <= 32768 {
                    -(t as int) as i16
                } else {
                    -32768i16
                }
            }
        }
    }

    /// Multiplies a sample by the value.
    pub fn scale(self, s: i16) -> (r: i16)
        ensures
            r == self.scaled(s),
    {
        let m: u32 = self.bits % 0x8000_0000;
        if m > 0x7f80_0000 {
            return 0;
        }
        let size: u32 = if s < 0 {
            (-(s as i32)) as u32
        } else {
            s as u32
        };
        let t: u32 = scale_size(size, m);
        if (s < 0) == (self.bits >= 0x8000_0000) {
            if t <= 32767 {
                t as i16
            } else {
                32767
            }
        } else {
            if t <= 32768 {
                (-(t as i32)) as i16
            } else {
                -32768
            }
        }
    }
}

pub(crate) proof fn lemma_excess(n: nat)
    ensures
        n < 0x100_0000 * power2::pow2(excess(n)),
        n >= 0x100_0000 ==> 0x80_0000 * power2::pow2(excess(n)) <= n,
        excess(2 * n) == (if 2 * n < 0x100_0000 {
            0nat
        } else {
            1 + excess(n)
        }),
    decreases n,
{
    power2::lemma2_to64();
    if n >= 0x100_0000 {
        lemma_excess(n / 2);
        power2::lemma_pow2_unfold(excess(n));
        let h = n / 2;
        let p = power2::pow2(excess(h));
        if h < 0x100_0000 {
            assert(excess(h) == 0);
            assert(p == 1);
        }
        assert(n == 2 * h || n == 2 * h + 1);
        assert(n < 0x100_0000 * (2 * p)) by (nonlinear_arith)
            requires
                h < 0x100_0000 * p,
                n <= 2 * h + 1,
        ;
        if h >= 0x100_0000 {
            assert(0x80_0000 * (2 * p) <= n) by (nonlinear_arith)
                requires
                    0x80_0000 * p <= h,
                    2 * h <= n,
            ;
        }
    }
    assert((2 * n) / 2 == n);
}

proof fn lemma_rounded_double(n: nat)
    ensures
        rounded(2 * n) == 2 * rounded(n),
{
    power2::lemma2_to64();
    lemma_excess(n);
    if n < 0x80_0000 {
        assert(excess(n) == 0 && excess(2 * n) == 0);
        assert(n / 1 == n && n % 1 == 0 && (2 * n) / 1 == 2 * n && (2 * n) % 1 == 0);
    } else {
        let k = excess(n);
        let u = power2::pow2(k);
        power2::lemma_pow2_pos(k);
        power2::lemma_pow2_unfold(k + 1);
        assert(power2::pow2(k + 1) == 2 * u);
        let q = n / u;
        let r = n % u;
        assert(n == q * u + r && 0 <= r < u) by {
            vstd::arithmetic::div_mod::lemma_fundamental_div_mod(n as int, u as int);
            vstd::arithmetic::div_mod::lemma_mod_bound(n as int, u as int);
            assert(u * q == q * u) by (nonlinear_arith);
        }
        assert((2 * n) / (2 * u) == q && (2 * n) % (2 * u) == 2 * r) by {
            assert(2 * n == q * (2 * u) + 2 * r) by (nonlinear_arith)
                requires
                    n == q * u + r,
            ;
            vstd::arithmetic::div_mod::lemma_fundamental_div_mod_converse(
                2 * n as int,
                2 * u as int,
                q as int,
                2 * r as int,
            );
        }
        assert((q + 1) * (2 * u) == 2 * ((q + 1) * u)) by (nonlinear_arith);
        assert(q * (2 * u) == 2 * (q * u)) by (nonlinear_arith);
    }
}

proof fn lemma_rounded_shift(n: nat, e: nat)
    ensures
        rounded(n * power2::pow2(e)) == rounded(n) * power2::pow2(e),
    decreases e,
{
    power2::lemma2_to64();
    if e > 0 {
        let d = (e - 1) as nat;
        lemma_rounded_shift(n, d);
        power2::lemma_pow2_unfold(e);
        let p = power2::pow2(d);
        lemma_rounded_double(n * p);
        assert(n * (2 * p) == 2 * (n * p)) by (nonlinear_arith);
        assert(rounded(n) * (2 * p) == 2 * (rounded(n) * p)) by (nonlinear_arith);
    } else {
        assert(n * 1 == n);
        assert(rounded(n) * 1 == rounded(n));
    }
}

/// Rounds to 24 significant binary digits.
fn round(w: u64) -> (r: u64)
    requires
        w <= 0x80_0000_0000,
    ensures
        r == rounded(w as nat),
        r <= 0x100_0000_0000,
{
    let mut q: u64 = w;
    let mut unit: u64 = 1;
    let ghost mut k: nat = 0;
    proof {
        power2::lemma2_to64();
        assert(w as nat / 1 == w);
    }
    while q >= 0x100_0000
        invariant
            w <= 0x80_0000_0000,
            unit == power2::pow2(k),
            unit >= 1,
            q == w as nat / unit as nat,
            q as nat * unit as nat <= w,
            excess(w as nat) == k + excess(q as nat),
        decreases q,
    {
        proof {
            power2::lemma_pow2_unfold(k + 1);
            vstd::arithmetic::div_mod::lemma_div_denominator(w as int, unit as int, 2);
            assert(unit <= 0x10_0000) by (nonlinear_arith)
                requires
                    q as nat * unit as nat <= w,
                    q >= 0x100_0000,
                    w <= 0x80_0000_0000,
            ;
            let h = q / 2;
            assert(h as nat * (2 * unit as nat) <= w) by (nonlinear_arith)
                requires
                    q as nat * unit as nat <= w,
                    2 * h <= q,
            ;
            assert(unit as int * 2 == 2 * unit);
            k = k + 1;
        }
        q = q / 2;
        unit = unit * 2;
    }
    proof {
        assert(excess(q as nat) == 0);
        let u = unit as int;
        vstd::arithmetic::div_mod::lemma_fundamental_div_mod(w as int, u);
        vstd::arithmetic::div_mod::lemma_mod_bound(w as int, u);
        assert(u * q == q as nat * unit as nat) by (nonlinear_arith)
            requires
                u == unit,
        ;
        assert((q + 1) * unit == q * unit + unit) by (nonlinear_arith);
        assert(unit <= w || unit == 1) by {
            if q == 0 {
                assert(unit == 1) by {
                    if k > 0 {
                        lemma_excess(w as nat);
                        assert(w < 0x100_0000 ==> excess(w as nat) == 0);
                        assert(0x80_0000 * power2::pow2(k) <= w);
                        assert((w as nat) / (unit as nat) >= 1) by (nonlinear_arith)
                            requires
                                0x80_0000 * unit <= w,
                                unit >= 1,
                        ;
                    }
                }
            } else {
                assert(unit <= w) by (nonlinear_arith)
                    requires
                        q as nat * unit as nat <= w,
                        q >= 1,
                ;
            }
        }
    }
    let r: u64 = w % unit;
    if 2 * r > unit || (2 * r == unit && q % 2 == 1) {
        (q + 1) * unit
    } else {
        q * unit
    }
}

/// The whole part of a number of units of 2 to the power -149, each of which
/// is 2 to the power `e` times as large; 0x1_0000 where it is more than that.
fn whole_part(w: u64, e: u32) -> (r: u32)
    requires
        w <= 0x100_0000_0000,
        e <= 254,
    ensures
        r == ({
            let t = w as nat * power2::pow2(e as nat) / power2::pow2(149);
            if t <= 0x1_0000 {
                t
            } else {
                0x1_0000
            }
        }),
{
    let mut t: u64 = w;
    if e >= 149 {
        let up: u32 = e - 149;
        let ghost exact = w as nat * power2::pow2(e as nat) / power2::pow2(149);
        proof {
            power2::lemma_pow2_adds(up as nat, 149);
            power2::lemma_pow2_pos(149);
            let a = power2::pow2(up as nat);
            let b = power2::pow2(149);
            assert(w as nat * (a * b) == (w as nat * a) * b) by (nonlinear_arith);
            vstd::arithmetic::div_mod::lemma_div_multiples_vanish((w as nat * a) as int, b as int);
            assert((w as nat * a) * b == b * (w as nat * a)) by (nonlinear_arith);
            assert(exact == w as nat * a);
            power2::lemma2_to64();
            assert(w as nat * 1 == w);
        }
        let mut i: u32 = 0;
        while i < up && t <= 0x1_0000
            invariant
                i <= up,
                t == w as nat * power2::pow2(i as nat),
                t <= 0x100_0000_0000,
            decreases up - i,
        {
            proof {
                power2::lemma_pow2_unfold((i + 1) as nat);
                let p = power2::pow2(i as nat);
                assert(w as nat * (2 * p) == 2 * (w as nat * p)) by (nonlinear_arith);
            }
            t = t * 2;
            i += 1;
        }
        proof {
            if i < up {
                let a = power2::pow2(i as nat);
                let b = power2::pow2((up - i) as nat);
                power2::lemma_pow2_adds(i as nat, (up - i) as nat);
                power2::lemma_pow2_pos((up - i) as nat);
                assert(w as nat * (a * b) >= w as nat * a) by (nonlinear_arith)
                    requires
                        b >= 1,
                ;
            }
        }
    } else {
        let down: u32 = 149 - e;
        proof {
            power2::lemma2_to64();
            assert(w as nat / 1 == w);
        }
        let mut i: u32 = 0;
        while i < down
            invariant
                i <= down,
                t == w as nat / power2::pow2(i as nat),
                t <= 0x100_0000_0000,
            decreases down - i,
        {
            proof {
                power2::lemma_pow2_unfold((i + 1) as nat);
                power2::lemma_pow2_pos(i as nat);
                let p = power2::pow2(i as nat);
                vstd::arithmetic::div_mod::lemma_div_denominator(w as int, p as int, 2);
                assert(p * 2 == 2 * p);
            }
            t = t / 2;
            i += 1;
        }
        proof {
            let a = power2::pow2(e as nat);
            let b = power2::pow2(down as nat);
            power2::lemma_pow2_adds(e as nat, down as nat);
            power2::lemma_pow2_pos(e as nat);
            power2::lemma_pow2_pos(down as nat);
            vstd::arithmetic::div_mod::lemma_div_multiples_vanish(w as int, a as int);
            vstd::arithmetic::div_mod::lemma_div_denominator(
                (w as nat * a) as int,
                a as int,
                b as int,
            );
            assert(w as nat * a == a * w as nat) by (nonlinear_arith);
        }
    }
    if t <= 0x1_0000 {
        t as u32
    } else {
        0x1_0000
    }
}

/// The product of an integer and a magnitude, up to 0x1_0000.
fn scale_size(size: u32, m: u32) -> (r: u32)
    requires
        size <= 0x8000,
        m <= 0x7f80_0000,
    ensures
        r == ({
            let t = rounded(size as nat * magnitude(m as nat)) / power2::pow2(149);
            if t <= 0x1_0000 {
                t
            } else {
                0x1_0000
            }
        }),
{
    let exponent: u32 = m / 0x80_0000;
    let fraction: u32 = m % 0x80_0000;
    let digits: u64 = if exponent == 0 {
        fraction as u64
    } else {
        0x80_0000 + fraction as u64
    };
    let e: u32 = if exponent == 0 {
        0
    } else {
        exponent - 1
    };
    proof {
        assert(size as nat * digits as nat <= 0x80_0000_0000) by (nonlinear_arith)
            requires
                size <= 0x8000,
                digits < 0x100_0000,
        ;
    }
    let w: u64 = size as u64 * digits;
    proof {
        power2::lemma2_to64();
        let p = power2::pow2(e as nat);
        assert(magnitude(m as nat) == digits as nat * p) by {
            if exponent == 0 {
                assert(digits as nat * 1 == digits);
            }
        }
        assert(size as nat * (digits as nat * p) == (size as nat * digits as nat) * p)
            by (nonlinear_arith);
        lemma_rounded_shift(w as nat, e as nat);
    }
    let q: u64 = round(w);
    whole_part(q, e)
}

/// Rounding does not go below a number that needs no rounding.
proof fn lemma_rounded_at_least(n: nat, c: nat, j: nat)
    requires
        c < 0x100_0000,
        n >= c * power2::pow2(j),
    ensures
        rounded(n) >= c * power2::pow2(j),
{
    let k = excess(n);
    let u = power2::pow2(k);
    power2::lemma_pow2_pos(k);
    lemma_excess(n);
    let q = n / u;
    vstd::arithmetic::div_mod::lemma_fundamental_div_mod(n as int, u as int);
    vstd::arithmetic::div_mod::lemma_mod_bound(n as int, u as int);
    assert(u * q == q * u) by (nonlinear_arith);
    assert((q + 1) * u == q * u + u) by (nonlinear_arith);
    if k <= j {
        let a = power2::pow2((j - k) as nat);
        power2::lemma_pow2_adds((j - k) as nat, k);
        assert(c * (a * u) == (c * a) * u) by (nonlinear_arith);
        assert(q >= c * a) by (nonlinear_arith)
            requires
                (c * a) * u <= n,
                n < q * u + u,
                u > 0,
        ;
        assert(q * u >= (c * a) * u) by (nonlinear_arith)
            requires
                q >= c * a,
                u > 0,
        ;
    } else {
        let a = power2::pow2((k - j - 1) as nat);
        power2::lemma_pow2_unfold((k - j) as nat);
        power2::lemma_pow2_adds((k - j) as nat, j);
        power2::lemma_pow2_pos((k - j - 1) as nat);
        power2::lemma_pow2_pos(j);
        let p = power2::pow2(j);
        assert(n >= 0x100_0000) by {
            if n < 0x100_0000 {
                assert(k == 0);
            }
        }
        assert(q >= 0x80_0000) by (nonlinear_arith)
            requires
                0x80_0000 * u <= n,
                n < q * u + u,
                u > 0,
        ;
        assert(q * u >= 0x80_0000 * u) by (nonlinear_arith)
            requires
                q >= 0x80_0000,
                u > 0,
        ;
        assert(u == (2 * a) * p);
        assert(0x80_0000 * ((2 * a) * p) >= 0x100_0000 * p) by (nonlinear_arith)
            requires
                a >= 1,
                p > 0,
        ;
        assert(0x100_0000 * p >= c * p) by (nonlinear_arith)
            requires
                c < 0x100_0000,
                p > 0,
        ;
    }
}

pub(crate) proof fn lemma_rounded_small(n: nat)
    requires
        n < 0x100_0000,
    ensures
        rounded(n) == n,
{
    power2::lemma2_to64();
    assert(excess(n) == 0);
    assert(n / 1 == n && n % 1 == 0);
}

impl Single {
    /// A factor of 1 keeps every sample.
    pub proof fn one_keeps_every_sample(self, s: i16)
        requires
            self.bits == 0x3f80_0000,
        ensures
            self.scaled(s) == s,
    {
        lemma_around_one();
        let n = if s < 0 {
            -s as nat
        } else {
            s as nat
        };
        lemma_rounded_shift(n, 149);
        lemma_rounded_small(n);
        power2::lemma_pow2_pos(149);
        let p = power2::pow2(149);
        vstd::arithmetic::div_mod::lemma_div_multiples_vanish(n as int, p as int);
        assert(n * p == p * n) by (nonlinear_arith);
        assert(self.whole_product(n) == n);
    }

    /// Full scale stays full scale under every factor from 1 up; it does not
    /// wrap around.
    pub proof fn full_scale_saturates(self)
        requires
            !self.nan(),
            self.value() >= power2::pow2(149),
        ensures
            self.scaled(32767) == 32767,
            self.scaled(-32768i16) == -32768,
    {
        power2::lemma_pow2_pos(149);
        let p = power2::pow2(149);
        let g = magnitude(magnitude_bits(self.bits));
        assert(self.bits < 0x8000_0000);
        assert(g >= p);
        assert(32767 * g >= 32767 * p && 32768 * g >= 32768 * p) by (nonlinear_arith)
            requires
                g >= p,
        ;
        lemma_rounded_at_least(32767 * g, 32767, 149);
        lemma_rounded_at_least(32768 * g, 32768, 149);
        lemma_whole_at_least(rounded(32767 * g), 32767);
        lemma_whole_at_least(rounded(32768 * g), 32768);
    }

    /// A factor that is not negative never turns the sign of a sample around.
    pub proof fn sign_is_kept(self, s: i16)
        requires
            self.bits < 0x8000_0000,
        ensures
            s >= 0 ==> self.scaled(s) >= 0,
            s <= 0 ==> self.scaled(s) <= 0,
    {
        if s == 0 {
            assert(0 * magnitude(magnitude_bits(self.bits)) == 0) by (nonlinear_arith);
            lemma_rounded_small(0);
            power2::lemma_pow2_pos(149);
            vstd::arithmetic::div_mod::lemma_div_basics(power2::pow2(149) as int);
            assert(self.whole_product(0) == 0);
        }
    }
}

proof fn lemma_whole_at_least(n: nat, c: nat)
    requires
        n >= c * power2::pow2(149),
    ensures
        n / power2::pow2(149) >= c,
{
    let p = power2::pow2(149);
    power2::lemma_pow2_pos(149);
    vstd::arithmetic::div_mod::lemma_fundamental_div_mod(n as int, p as int);
    vstd::arithmetic::div_mod::lemma_mod_bound(n as int, p as int);
    let q = n / p;
    assert(q >= c) by (nonlinear_arith)
        requires
            n >= c * p,
            n < p * q + p,
            p > 0,
    ;
}

// ---- reciprocals ---------------------------------------------------------

/// The quotient `n / d`, rounded to 24 significant binary digits as
/// [`rounded`] does.
pub open spec fn rounded_quotient(n: nat, d: nat) -> nat {
    let unit = power2::pow2(excess(n / d));
    let q = n / (d * unit);
    let r = n % (d * unit);
    if 2 * r > d * unit || (2 * r == d * unit && q % 2 == 1) {
        (q + 1) * unit
    } else {
        q * unit
    }
}

pub(crate) proof fn lemma_excess_unique(n: nat, k: nat)
    requires
        0x80_0000 * power2::pow2(k) <= n < 0x100_0000 * power2::pow2(k),
    ensures
        excess(n) == k,
    decreases k,
{
    power2::lemma2_to64();
    if k > 0 {
        power2::lemma_pow2_unfold(k);
        let p = power2::pow2((k - 1) as nat);
        power2::lemma_pow2_pos((k - 1) as nat);
        assert(0x80_0000 * (2 * p) >= 0x100_0000) by (nonlinear_arith)
            requires
                p >= 1,
        ;
        let h = n / 2;
        assert(0x80_0000 * p <= h < 0x100_0000 * p) by (nonlinear_arith)
            requires
                0x80_0000 * (2 * p) <= n < 0x100_0000 * (2 * p),
                2 * h <= n <= 2 * h + 1,
        ;
        lemma_excess_unique(h, (k - 1) as nat);
    }
}

/// The reciprocal of digits times a power of two, in units of 2 to the power
/// -149.
proof fn lemma_reciprocal(m: nat, e: nat, k: nat)
    requires
        0x80_0000 <= m < 0x100_0000,
        1 <= e <= 252,
        k + e == (if m == 0x80_0000 {
            253nat
        } else {
            252
        }),
    ensures
        ({
            let d = m * power2::pow2((e - 1) as nat);
            let top = if m == 0x80_0000 {
                0x4000_0000_0000nat
            } else {
                0x8000_0000_0000
            };
            let up = top / m + (if 2 * (top % m) > m || (2 * (top % m) == m && (top / m) % 2 == 1) {
                1nat
            } else {
                0
            });
            rounded_quotient(power2::pow2(298), d) == up * power2::pow2(k)
        }),
{
    power2::lemma2_to64();
    power2::lemma2_to64_rest();
    let p = power2::pow2((e - 1) as nat);
    let u = power2::pow2(k);
    let d = m * p;
    let n = power2::pow2(298);
    let s = (e - 1 + k) as nat;
    let w = power2::pow2(s);
    let top = if m == 0x80_0000 {
        0x4000_0000_0000nat
    } else {
        0x8000_0000_0000
    };
    power2::lemma_pow2_pos((e - 1) as nat);
    power2::lemma_pow2_pos(k);
    power2::lemma_pow2_pos(s);
    power2::lemma_pow2_adds((e - 1) as nat, k);
    assert(n == top * w) by {
        if m == 0x80_0000 {
            assert(s == 252);
            power2::lemma_pow2_adds(46, 252);
        } else {
            assert(s == 251);
            power2::lemma_pow2_adds(47, 251);
        }
    }
    assert(d * u == m * w) by (nonlinear_arith)
        requires
            d == m * p,
            w == p * u,
    ;
    let q = top / m;
    let r = top % m;
    assert(top == q * m + r && 0 <= r < m) by {
        vstd::arithmetic::div_mod::lemma_fundamental_div_mod(top as int, m as int);
        assert(m * q == q * m) by (nonlinear_arith);
    }
    assert(n == q * (m * w) + r * w) by (nonlinear_arith)
        requires
            n == top * w,
            top == q * m + r,
    ;
    assert(0 <= r * w < m * w) by (nonlinear_arith)
        requires
            0 <= r < m,
            w > 0,
    ;
    vstd::arithmetic::div_mod::lemma_fundamental_div_mod_converse(
        n as int,
        (m * w) as int,
        q as int,
        (r * w) as int,
    );
    // the number of digits
    let y = n / d;
    assert(d > 0) by (nonlinear_arith)
        requires
            d == m * p,
            m > 0,
            p > 0,
    ;
    assert(0x80_0000 * m <= top && top < 0x100_0000 * m);
    assert((0x80_0000 * u) * d <= n && n < (0x100_0000 * u) * d) by (nonlinear_arith)
        requires
            d * u == m * w,
            n == top * w,
            0x80_0000 * m <= top,
            top < 0x100_0000 * m,
            w > 0,
    ;
    vstd::arithmetic::div_mod::lemma_fundamental_div_mod(n as int, d as int);
    vstd::arithmetic::div_mod::lemma_mod_bound(n as int, d as int);
    assert(0x80_0000 * u <= y && y < 0x100_0000 * u) by (nonlinear_arith)
        requires
            (0x80_0000 * u) * d <= n,
            n < (0x100_0000 * u) * d,
            d * y <= n,
            n < d * y + d,
            d > 0,
    ;
    lemma_excess_unique(y, k);
    assert(2 * (r * w) > m * w <==> 2 * r > m) by (nonlinear_arith)
        requires
            w > 0,
    ;
    assert(2 * (r * w) == m * w <==> 2 * r == m) by (nonlinear_arith)
        requires
            w > 0,
    ;
}

impl Single {
    /// The reciprocal of a number between 0.1 and 5, as single-precision
    /// division rounds it.
    pub fn reciprocal(self) -> (r: Single)
        requires
            0x3dcc_cccd <= self.bits <= 0x40a0_0000,
        ensures
            0x3e00_0000 <= r.bits < 0x4180_0000,
            r.value() == rounded_quotient(power2::pow2(298), self.value() as nat),
    {
        let e: u32 = self.bits / 0x80_0000;
        let m: u64 = 0x80_0000 + (self.bits % 0x80_0000) as u64;
        assert(123 <= e <= 129);
        let (top, k): (u64, u32) = if m == 0x80_0000 {
            (0x4000_0000_0000, 253 - e)
        } else {
            (0x8000_0000_0000, 252 - e)
        };
        let q: u64 = top / m;
        let r: u64 = top % m;
        assert(0x80_0000 <= q < 0x100_0000) by (nonlinear_arith)
            requires
                q == top / m,
                0x80_0000 <= m < 0x100_0000,
                m == 0x80_0000 ==> top == 0x4000_0000_0000,
                m != 0x80_0000 ==> top == 0x8000_0000_0000,
        ;
        assert(e == 123 ==> q < 0xc0_0000) by (nonlinear_arith)
            requires
                q == top / m,
                e == 123 ==> m >= 0xcc_cccd,
                e == 123 ==> top == 0x8000_0000_0000,
        ;
        let up: u64 = if 2 * r > m || (2 * r == m && q % 2 == 1) {
            q + 1
        } else {
            q
        };
        let ghost u = power2::pow2(k as nat);
        proof {
            lemma_reciprocal(m as nat, e as nat, k as nat);
            power2::lemma_pow2_unfold((k + 1) as nat);
        }
        if up == 0x100_0000 {
            let bits: u32 = (k + 2) * 0x80_0000;
            proof {
                assert(bits as nat / 0x80_0000 == k + 2 && bits as nat % 0x80_0000 == 0);
                assert(0x80_0000 * (2 * u) == 0x100_0000 * u) by (nonlinear_arith);
            }
            Single { bits }
        } else {
            let bits: u32 = (k + 1) * 0x80_0000 + (up as u32 - 0x80_0000);
            proof {
                assert(bits as nat / 0x80_0000 == k + 1 && bits as nat % 0x80_0000 == up
                    - 0x80_0000);
            }
            Single { bits }
        }
    }
}

// ---- six places ----------------------------------------------------------

/// A number of units of 2 to the power -149 in millionths: the nearest whole
/// number of them, and of two that are equally near the even one.
pub open spec fn millionths(n: nat) -> nat {
    let unit = power2::pow2(149);
    let q = (n * 1_000_000) / unit;
    let r = (n * 1_000_000) % unit;
    if 2 * r > unit || (2 * r == unit && q % 2 == 1) {
        q + 1
    } else {
        q
    }
}

/// A number of units of 2 to the power -149, in decimal with six places.
pub open spec fn six_places(n: nat) -> Seq<char> {
    text::decimal_text(millionths(n) / 1_000_000) + "."@ + text::padded_text(
        millionths(n) % 1_000_000,
        6,
    )
}

impl Single {
    /// Writes a number between 0.125 and 16 in decimal, with six places.
    pub fn to_six_places(self) -> (r: String)
        requires
            0x3e00_0000 <= self.bits < 0x4180_0000,
        ensures
            r@ == six_places(self.value() as nat),
    {
        let e: u32 = self.bits / 0x80_0000;
        let m: u64 = 0x80_0000 + (self.bits % 0x80_0000) as u64;
        assert(124 <= e <= 130);
        let down: u32 = 150 - e;
        let mut unit: u64 = 1;
        let mut i: u32 = 0;
        proof {
            power2::lemma2_to64();
        }
        while i < down
            invariant
                20 <= down <= 26,
                i <= down,
                unit == power2::pow2(i as nat),
                unit >= 1,
                unit <= 0x400_0000,
                power2::pow2(26) == 0x400_0000,
            decreases down - i,
        {
            proof {
                power2::lemma_pow2_unfold((i + 1) as nat);
                if i + 1 < 26 {
                    power2::lemma_pow2_strictly_increases((i + 1) as nat, 26);
                }
            }
            unit = unit * 2;
            i += 1;
        }
        let t: u64 = m * 1_000_000;
        let q: u64 = t / unit;
        let r: u64 = t % unit;
        let whole: u64 = if 2 * r > unit || (2 * r == unit && q % 2 == 1) {
            q + 1
        } else {
            q
        };
        proof {
            let p = power2::pow2((e - 1) as nat);
            let u = unit as nat;
            let big = power2::pow2(149);
            power2::lemma_pow2_pos((e - 1) as nat);
            power2::lemma_pow2_adds((e - 1) as nat, down as nat);
            assert(self.value() == m as nat * p);
            assert((m as nat * p) * 1_000_000 == t as nat * p) by (nonlinear_arith)
                requires
                    t == m as nat * 1_000_000,
            ;
            vstd::arithmetic::div_mod::lemma_fundamental_div_mod(t as int, u as int);
            assert(t as nat * p == q as nat * big + r as nat * p) by (nonlinear_arith)
                requires
                    big == p * u,
                    t == u * q + r,
            ;
            assert(0 <= r as nat * p < big) by (nonlinear_arith)
                requires
                    big == p * u,
                    r < u,
                    p > 0,
            ;
            vstd::arithmetic::div_mod::lemma_fundamental_div_mod_converse(
                (t as nat * p) as int,
                big as int,
                q as int,
                (r as nat * p) as int,
            );
            assert(2 * (r as nat * p) > big <==> 2 * r > unit) by (nonlinear_arith)
                requires
                    big == p * u,
                    u == unit,
                    p > 0,
            ;
            assert(2 * (r as nat * p) == big <==> 2 * r == unit) by (nonlinear_arith)
                requires
                    big == p * u,
                    u == unit,
                    p > 0,
            ;
        }
        text::joined3(
            text::decimal(whole / 1_000_000).as_str(),
            ".",
            text::padded_decimal(whole % 1_000_000, 6).as_str(),
        )
    }
}

proof fn lemma_excess_order(a: nat, b: nat)
    requires
        a <= b,
    ensures
        excess(a) <= excess(b),
    decreases b,
{
    if a >= 0x100_0000 {
        lemma_excess_order(a / 2, b / 2);
    }
}

/// A quotient has at most 24 digits above its unit, and 24 where the unit is
/// not the smallest.
pub(crate) proof fn lemma_quotient_digits(n: nat, d: nat)
    requires
        d > 0,
    ensures
        ({
            let k = excess(n / d);
            let unit = power2::pow2(k);
            let q = n / (d * unit);
            &&& unit > 0
            &&& d * unit > 0
            &&& q < 0x100_0000
            &&& k > 0 ==> q >= 0x80_0000
            &&& n == q * (d * unit) + n % (d * unit)
            &&& 0 <= n % (d * unit) < d * unit
        }),
{
    let y = n / d;
    let k = excess(y);
    let unit = power2::pow2(k);
    power2::lemma_pow2_pos(k);
    lemma_excess(y);
    vstd::arithmetic::div_mod::lemma_div_denominator(n as int, d as int, unit as int);
    let q = n / (d * unit);
    assert(q == y / unit);
    vstd::arithmetic::div_mod::lemma_fundamental_div_mod(y as int, unit as int);
    vstd::arithmetic::div_mod::lemma_mod_bound(y as int, unit as int);
    assert(q < 0x100_0000) by (nonlinear_arith)
        requires
            unit * q <= y,
            y < 0x100_0000 * unit,
            unit > 0,
    ;
    if k > 0 {
        assert(y >= 0x100_0000);
        assert(q >= 0x80_0000) by (nonlinear_arith)
            requires
                y < unit * q + unit,
                0x80_0000 * unit <= y,
                unit > 0,
        ;
    }
    let w = d * unit;
    assert(w > 0) by (nonlinear_arith)
        requires
            w == d * unit,
            d > 0,
            unit > 0,
    ;
    vstd::arithmetic::div_mod::lemma_fundamental_div_mod(n as int, w as int);
    vstd::arithmetic::div_mod::lemma_mod_bound(n as int, w as int);
    assert(w * q == q * w) by (nonlinear_arith);
}

/// A greater divisor never gives a greater quotient, rounded or not.
pub proof fn lemma_quotient_order(n: nat, low: nat, high: nat)
    requires
        0 < low <= high,
    ensures
        rounded_quotient(n, low) >= rounded_quotient(n, high),
{
    let k = excess(n / low);
    let j = excess(n / high);
    let u = power2::pow2(k);
    let v = power2::pow2(j);
    lemma_quotient_digits(n, low);
    lemma_quotient_digits(n, high);
    vstd::arithmetic::div_mod::lemma_div_is_ordered_by_denominator(
        n as int,
        low as int,
        high as int,
    );
    lemma_excess_order(n / high, n / low);
    let a = low * u;
    let b = high * v;
    let p = n / a;
    let q = n / b;
    let r = n % a;
    let s = n % b;
    assert((p + 1) * u == p * u + u && (q + 1) * v == q * v + v) by (nonlinear_arith);
    if k == j {
        assert(a <= b) by (nonlinear_arith)
            requires
                a == low * u,
                b == high * u,
                low <= high,
        ;
        vstd::arithmetic::div_mod::lemma_div_is_ordered_by_denominator(
            n as int,
            a as int,
            b as int,
        );
        if p > q {
            assert(p * u >= (q + 1) * u) by (nonlinear_arith)
                requires
                    p >= q + 1,
            ;
        } else {
            assert(r >= s) by (nonlinear_arith)
                requires
                    n == p * a + r,
                    n == p * b + s,
                    a <= b,
            ;
        }
    } else {
        let h = power2::pow2((k - j) as nat);
        power2::lemma_pow2_adds((k - j) as nat, j);
        power2::lemma_pow2_unfold((k - j) as nat);
        power2::lemma_pow2_pos((k - j - 1) as nat);
        assert(p * u >= 0x80_0000 * u) by (nonlinear_arith)
            requires
                p >= 0x80_0000,
        ;
        assert(0x80_0000 * (h * v) >= 0x100_0000 * v) by (nonlinear_arith)
            requires
                h >= 2,
        ;
        assert((q + 1) * v <= 0x100_0000 * v) by (nonlinear_arith)
            requires
                q < 0x100_0000,
        ;
    }
}

/// A quotient of one or more is not rounded to nothing.
pub proof fn lemma_quotient_positive(n: nat, d: nat)
    requires
        0 < d <= n,
    ensures
        rounded_quotient(n, d) > 0,
{
    let y = n / d;
    let unit = power2::pow2(excess(y));
    lemma_quotient_digits(n, d);
    power2::lemma2_to64();
    let w = d * unit;
    let q = n / w;
    if excess(y) == 0 {
        assert(unit == 1);
        assert(w == d) by (nonlinear_arith)
            requires
                w == d * unit,
                unit == 1,
        ;
        vstd::arithmetic::div_mod::lemma_div_non_zero(n as int, d as int);
    }
    assert(q * unit > 0 && (q + 1) * unit > 0) by (nonlinear_arith)
        requires
            q >= 1,
            unit > 0,
    ;
}

} // verus!
