//! Single precision numbers: what their bits stand for, rounding, the range of
//! the settings, and the gain on a sample.

use crate::laws::texts;
use crate::single;
use crate::single::Single;
use crate::synth::VoiceConfig;
use crate::text;
use vstd::std_specs::cmp::PartialEqSpec;
use vstd::arithmetic::div_mod;
use vstd::arithmetic::power2;
use vstd::prelude::*;

verus! {

/// The bits of a number count its values up from zero: first one by one, then in
/// steps that double each time the exponent goes up by one. The sign bit turns
/// the value round, and beyond infinity no bits stand for a number.
pub proof fn bits_stand_for_values(bits: u32)
    ensures
        bits < 0x100_0000 ==> (Single { bits }).value() == bits,
        0x80_0000 <= bits < 0x7f80_0000 ==> (Single { bits: (bits + 0x80_0000) as u32 }).value()
            == 2 * (Single { bits }).value(),
        bits < 0x8000_0000 ==> (Single { bits: (bits + 0x8000_0000) as u32 }).value() == -(
        Single { bits }).value(),
        (Single { bits }).nan() <==> 0x7f80_0000 < bits < 0x8000_0000 || 0xff80_0000 < bits,
{
    power2::lemma2_to64();
    let m = bits as nat;
    if bits < 0x100_0000 {
        assert(single::magnitude_bits(bits) == bits);
        if bits >= 0x80_0000 {
            assert(m / 0x80_0000 == 1);
            assert(m % 0x80_0000 == m - 0x80_0000);
            assert((0x80_0000 + m % 0x80_0000) * power2::pow2(0) == m) by (nonlinear_arith)
                requires
                    power2::pow2(0) == 1,
                    m % 0x80_0000 == m - 0x80_0000,
            ;
        } else {
            assert(m / 0x80_0000 == 0);
            assert(m % 0x80_0000 == m);
        }
    }
    if 0x80_0000 <= bits < 0x7f80_0000 {
        let e = m / 0x80_0000;
        let f = m % 0x80_0000;
        assert((m + 0x80_0000) / 0x80_0000 == e + 1);
        assert((m + 0x80_0000) % 0x80_0000 == f);
        assert(single::magnitude_bits(bits) == m);
        assert(single::magnitude_bits((bits + 0x80_0000) as u32) == m + 0x80_0000);
        power2::lemma_pow2_unfold(e);
        let p = power2::pow2((e - 1) as nat);
        let w: nat = 0x80_0000 + f;
        assert(power2::pow2(e) == 2 * p);
        assert(w * (2 * p) == 2 * (w * p)) by (nonlinear_arith);
        assert(single::magnitude(m + 0x80_0000) == w * power2::pow2(e));
        assert(single::magnitude(m) == w * p);
    }
    if bits < 0x8000_0000 {
        assert(single::magnitude_bits((bits + 0x8000_0000) as u32) == single::magnitude_bits(bits));
    }
}

/// Whether `c` steps come nearest to `n`; where two counts come equally near, it
/// is the even one.
pub open spec fn nearest(n: nat, step: nat, c: nat) -> bool {
    &&& 2 * (n - c * step) <= step
    &&& 2 * (c * step - n) <= step
    &&& 2 * (n - c * step) == step || 2 * (c * step - n) == step ==> c % 2 == 0
}

proof fn lemma_nearest(n: nat, step: nat)
    requires
        step > 0,
    ensures
        ({
            let q = n / step;
            let r = n % step;
            let c: nat = if 2 * r > step || (2 * r == step && q % 2 == 1) {
                q + 1
            } else {
                q
            };
            nearest(n, step, c)
        }),
{
    div_mod::lemma_fundamental_div_mod(n as int, step as int);
    let q = n / step;
    let r = n % step;
    assert(n == q * step + r) by (nonlinear_arith)
        requires
            n == step * q + r,
    ;
    assert((q + 1) * step == q * step + step) by (nonlinear_arith);
    assert(r < step);
}

/// A product is rounded to the nearest number with twenty-four significant
/// bits, ties to the even one; one with no more bits stays as it is.
pub proof fn products_are_rounded_to_the_nearest(n: nat, k: nat)
    ensures
        n < 0x100_0000 ==> single::rounded(n) == n,
        0x80_0000 * power2::pow2(k) <= n < 0x100_0000 * power2::pow2(k) ==> exists|c: nat|
            single::rounded(n) == c * power2::pow2(k) && #[trigger] nearest(
                n,
                power2::pow2(k),
                c,
            ),
{
    if n < 0x100_0000 {
        single::lemma_rounded_small(n);
    }
    if 0x80_0000 * power2::pow2(k) <= n < 0x100_0000 * power2::pow2(k) {
        let unit = power2::pow2(k);
        power2::lemma_pow2_pos(k);
        single::lemma_excess_unique(n, k);
        lemma_nearest(n, unit);
        let q = n / unit;
        let r = n % unit;
        if 2 * r > unit || (2 * r == unit && q % 2 == 1) {
            assert(nearest(n, unit, q + 1));
        } else {
            assert(nearest(n, unit, q));
        }
    }
}

/// Whether `t` is the whole part of `p`, or the limit where that is larger.
pub open spec fn whole_up_to(p: nat, t: int, limit: int) -> bool {
    &&& 0 <= t <= limit
    &&& t * power2::pow2(149) <= p
    &&& t < limit ==> p < (t + 1) * power2::pow2(149)
}

/// A sample with a gain is the whole part of the rounded product, towards zero,
/// and the largest or smallest sample where the product lies beyond it. A
/// negative sample, and a negative gain, turn the sign.
pub proof fn gain_gives_the_whole_part_of_the_product(gain: Single, size: nat)
    requires
        gain.bits <= 0x7f80_0000,
        size <= 32768,
    ensures
        ({
            let p = single::rounded(size * gain.value() as nat);
            let turned = Single { bits: (gain.bits + 0x8000_0000) as u32 };
            &&& size <= 32767 ==> whole_up_to(p, gain.scaled(size as i16) as int, 32767)
            &&& size <= 32767 ==> whole_up_to(p, -turned.scaled(size as i16), 32768)
            &&& size > 0 ==> whole_up_to(p, -gain.scaled((-(size as int)) as i16), 32768)
            &&& size > 0 ==> whole_up_to(p, turned.scaled((-(size as int)) as i16) as int, 32767)
        }),
{
    let turned = Single { bits: (gain.bits + 0x8000_0000) as u32 };
    let m = single::magnitude(single::magnitude_bits(gain.bits));
    assert(single::magnitude_bits(turned.bits) == single::magnitude_bits(gain.bits));
    let p = single::rounded(size * m);
    let one = power2::pow2(149);
    power2::lemma_pow2_pos(149);
    div_mod::lemma_fundamental_div_mod(p as int, one as int);
    let t = p / one;
    assert(t * one <= p < (t + 1) * one) by (nonlinear_arith)
        requires
            p == one * t + p % one,
            0 <= p % one < one,
    ;
    lemma_limit(p, t, 32767);
    lemma_limit(p, t, 32768);
    assert(gain.whole_product(size) == t);
    assert(turned.whole_product(size) == t);
    if size > 0 {
        let s = (-(size as int)) as i16;
        assert(-s == size);
    }
    assert(0 * one == 0);
}

proof fn lemma_limit(p: nat, t: nat, limit: nat)
    requires
        t * power2::pow2(149) <= p < (t + 1) * power2::pow2(149),
    ensures
        whole_up_to(
            p,
            (if t <= limit {
                t as int
            } else {
                limit as int
            }),
            limit as int,
        ),
{
    let one = power2::pow2(149);
    if t > limit {
        assert(limit * one <= t * one) by (nonlinear_arith)
            requires
                limit <= t,
        ;
    }
}

/// What is no number gives silence.
pub proof fn no_number_gives_silence(gain: Single, s: i16)
    requires
        gain.nan(),
    ensures
        gain.scaled(s) == 0,
{
}

/// Numbers are equal if their bits are, or if both are zero; what is no number is
/// not equal to anything.
pub proof fn equal_numbers_have_equal_bits(a: Single, b: Single)
    ensures
        a.nan() || b.nan() ==> !a.eq_spec(&b),
        !a.nan() && !b.nan() ==> (a.eq_spec(&b) <==> a.bits == b.bits || (a.bits % 0x8000_0000 == 0
            && b.bits % 0x8000_0000 == 0)),
{
    let m = single::magnitude_bits(a.bits);
    let n = single::magnitude_bits(b.bits);
    single::lemma_magnitude_order(m, n);
    single::lemma_magnitude_order(0, m);
    single::lemma_magnitude_order(0, n);
    assert(single::magnitude(0) == 0);
}

/// Only one, and the number next below it, count as one.
pub proof fn only_one_counts_as_one(x: Single)
    ensures
        x.near_one() <==> x.bits == 0x3f80_0000 || x.bits == 0x3f7f_ffff,
{
    single::lemma_around_one();
    let m = single::magnitude_bits(x.bits);
    let v = single::magnitude(m);
    single::lemma_magnitude_order(m, 0x3f7f_fffe);
    single::lemma_magnitude_order(0x3f7f_fffe, m);
    single::lemma_magnitude_order(m, 0x3f80_0001);
    single::lemma_magnitude_order(0x3f80_0001, m);
    single::lemma_magnitude_order(0x3f7f_fffe, 0x3f80_0000);
    power2::lemma_pow2_pos(126);
    if x.bits < 0x8000_0000 {
        assert(m == x.bits);
        assert(x.near_one() <==> 0x3f7f_fffe < m < 0x3f80_0001);
    } else {
        power2::lemma_pow2_strictly_increases(126, 149);
        assert(x.value() <= 0);
    }
}

/// Settings are held in their range: a rate from a tenth to five, and a gain
/// from nothing to four; one in the range stays as it is.
pub proof fn settings_are_held_in_range(s: VoiceConfig)
    ensures
        ({
            let low = Single { bits: 0x3dcc_cccd };
            let high = Single { bits: 0x40a0_0000 };
            &&& s.speaking_rate.nan() ==> s.rate_in_effect() == s.speaking_rate
            &&& !s.speaking_rate.nan() && s.speaking_rate.value() < low.value()
                ==> s.rate_in_effect() == low
            &&& !s.speaking_rate.nan() && s.speaking_rate.value() > high.value()
                ==> s.rate_in_effect() == high
            &&& low.value() <= s.speaking_rate.value() <= high.value() ==> s.rate_in_effect()
                == s.speaking_rate
        }),
        ({
            let low = Single { bits: 0 };
            let high = Single { bits: 0x4080_0000 };
            &&& s.gain.nan() ==> s.gain_in_effect() == s.gain
            &&& !s.gain.nan() && s.gain.value() < low.value() ==> s.gain_in_effect() == low
            &&& !s.gain.nan() && s.gain.value() > high.value() ==> s.gain_in_effect() == high
            &&& low.value() <= s.gain.value() <= high.value() ==> s.gain_in_effect() == s.gain
        }),
        s.rate_neutral() <==> s.rate_in_effect().bits == 0x3f80_0000 || s.rate_in_effect().bits
            == 0x3f7f_ffff,
        s.gain_unity() <==> s.gain_in_effect().bits == 0x3f80_0000 || s.gain_in_effect().bits
            == 0x3f7f_ffff,
{
    only_one_counts_as_one(s.rate_in_effect());
    only_one_counts_as_one(s.gain_in_effect());
    single::lemma_magnitude_order(0x3dcc_cccd, 0x40a0_0000);
    single::lemma_magnitude_order(0, 0x4080_0000);
}

/// The scale handed to the synthesiser is one over the rate, rounded to the
/// nearest number with twenty-four significant bits, ties to the even one.
pub proof fn scale_is_one_over_the_rate(s: VoiceConfig)
    requires
        !s.speaking_rate.nan(),
    ensures
        s.rate_in_effect().value() > 0,
        exists|c: nat, k: nat|
            {
                &&& s.length_scale() == c * power2::pow2(k)
                &&& 0x80_0000 <= c <= 0x100_0000 || k == 0
                &&& #[trigger] nearest(
                    power2::pow2(298),
                    (s.rate_in_effect().value() * power2::pow2(k)) as nat,
                    c,
                )
            },
{
    let rate = s.rate_in_effect();
    single::lemma_clamped_order(
        s.speaking_rate,
        s.speaking_rate,
        Single { bits: 0x3dcc_cccd },
        Single { bits: 0x40a0_0000 },
    );
    let d = rate.value() as nat;
    let n = power2::pow2(298);
    single::lemma_quotient_digits(n, d);
    let k = single::excess(n / d);
    let unit = power2::pow2(k);
    let step = d * unit;
    lemma_nearest(n, step);
    let q = n / step;
    let r = n % step;
    assert(step == (rate.value() * power2::pow2(k)) as nat);
    if 2 * r > step || (2 * r == step && q % 2 == 1) {
        assert(nearest(n, step, q + 1));
    } else {
        assert(nearest(n, step, q));
    }
}

/// A number written with six places reads back as the nearest millionth, ties to
/// the even one: digits in front of the point, and six behind it.
pub proof fn six_places_read_back(n: nat)
    ensures
        exists|whole: Seq<char>, places: Seq<char>|
            {
                &&& single::six_places(n) == #[trigger] (whole + "."@ + places)
                &&& texts::all_decimal(whole)
                &&& texts::all_decimal(places)
                &&& whole.len() > 0
                &&& places.len() == 6
                &&& nearest(
                    n * 1_000_000,
                    power2::pow2(149),
                    texts::decimal_value(whole) * 1_000_000 + texts::decimal_value(places),
                )
            },
{
    let m = single::millionths(n);
    let whole = text::decimal_text(m / 1_000_000);
    let places = text::padded_text(m % 1_000_000, 6);
    power2::lemma_pow2_pos(149);
    lemma_nearest(n * 1_000_000, power2::pow2(149));
    texts::decimal_text_reads_back(m / 1_000_000);
    texts::padded_text_reads_back(m % 1_000_000, 6);
    lemma_six_digits(m % 1_000_000);
    assert((m / 1_000_000) * 1_000_000 + m % 1_000_000 == m);
    assert(single::six_places(n) == whole + "."@ + places);
}

proof fn lemma_six_digits(n: nat)
    requires
        n < 1_000_000,
    ensures
        text::decimal_text(n).len() <= 6,
        text::padded_text(n, 6).len() == 6,
{
    reveal_with_fuel(text::numeral, 7);
}

} // verus!
