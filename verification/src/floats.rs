//! Floating-point numbers by their bits, as far as decisions depend on them.
use vstd::arithmetic::power2;
use vstd::prelude::*;

verus! {

/// A single-precision number, by its bits.
#[derive(Debug, Clone, Copy, PartialEq, Eq, Structural)]
pub struct Binary32 {
    pub bits: u32,
}

impl Binary32 {
    pub open spec fn negative(self) -> bool {
        self.bits >= 0x8000_0000
    }

    pub open spec fn exponent(self) -> nat {
        (self.bits as nat / 0x80_0000) % 0x100
    }

    pub open spec fn fraction(self) -> nat {
        self.bits as nat % 0x80_0000
    }

    pub open spec fn is_nan(self) -> bool {
        self.exponent() == 255 && self.fraction() != 0
    }

    pub open spec fn is_infinite(self) -> bool {
        self.exponent() == 255 && self.fraction() == 0
    }

    /// The magnitude of a finite number is the significand times two to the
    /// power of the exponent less 150, where a zero exponent counts as one.
    pub open spec fn significand(self) -> nat {
        if self.exponent() == 0 {
            self.fraction()
        } else {
            (0x80_0000 + self.fraction()) as nat
        }
    }

    pub open spec fn scale(self) -> int {
        if self.exponent() == 0 {
            -149
        } else {
            self.exponent() - 150
        }
    }

    /// The whole number nearest to the magnitude, halves upwards.
    pub open spec fn rounded(self) -> nat {
        if self.scale() >= 0 {
            self.significand() * power2::pow2(self.scale() as nat)
        } else {
            let unit = power2::pow2((-self.scale()) as nat);
            (2 * self.significand() + unit) / (2 * unit)
        }
    }
}

/// A power of two that fits.
fn power_of_two(k: u32) -> (p: u64)
    requires
        k <= 32,
    ensures
        p == power2::pow2(k as nat),
{
    let mut p: u64 = 1;
    let mut i: u32 = 0;
    proof {
        power2::lemma2_to64();
    }
    while i < k
        invariant
            i <= k <= 32,
            p == power2::pow2(i as nat),
            p <= 0x1_0000_0000,
            power2::pow2(32) == 0x1_0000_0000,
        decreases k - i,
    {
        proof {
            power2::lemma_pow2_unfold((i + 1) as nat);
            power2::lemma_pow2_strictly_increases(i as nat, 32);
        }
        p = p * 2;
        i = i + 1;
        proof {
            if i < 32 {
                power2::lemma_pow2_strictly_increases(i as nat, 32);
            }
        }
    }
    p
}

/// The whole number nearest to a number, at least one and at most `most`.
/// Not-a-number and negative numbers count as one.
pub open spec fn nearest(x: Binary32, most: u32) -> u32 {
    if x.is_nan() || x.negative() {
        1
    } else if x.is_infinite() || x.rounded() > most {
        most
    } else if x.rounded() < 1 {
        1
    } else {
        x.rounded() as u32
    }
}

/// Round to a whole number from one to `most`.
pub fn nearest_whole(x: Binary32, most: u32) -> (n: u32)
    requires
        most >= 1,
    ensures
        n == nearest(x, most),
{
    let bits: u32 = x.bits;
    let exponent: u32 = (bits / 0x80_0000) % 0x100;
    let fraction: u32 = bits % 0x80_0000;
    if bits >= 0x8000_0000 || (exponent == 255 && fraction != 0) {
        return 1;
    }
    if exponent == 255 {
        return most;
    }
    if exponent < 126 {
        proof {
            let down = (-x.scale()) as nat;
            power2::lemma_pow2_pos(down);
            power2::lemma2_to64();
            if down > 25 {
                power2::lemma_pow2_strictly_increases(25, down);
            }
            let unit = power2::pow2(down);
            let twice = 2 * x.significand();
            assert(twice < unit);
            assert((twice + unit) / (2 * unit) == 0) by (nonlinear_arith)
                requires
                    0 <= twice < unit,
            ;
        }
        return 1;
    }
    let significand: u64 = 0x80_0000 + fraction as u64;
    let rounded: u64 = if exponent < 150 {
        let unit: u64 = power_of_two(150 - exponent);
        proof {
            power2::lemma2_to64();
            power2::lemma_pow2_pos((150 - exponent) as nat);
            if 150 - exponent < 24 {
                power2::lemma_pow2_strictly_increases((150 - exponent) as nat, 24);
            }
        }
        (2 * significand + unit) / (2 * unit)
    } else if exponent >= 159 {
        proof {
            let up = x.scale() as nat;
            power2::lemma2_to64();
            if up > 9 {
                power2::lemma_pow2_strictly_increases(9, up);
            }
            assert(x.significand() * power2::pow2(up) >= 0x1_0000_0000) by (nonlinear_arith)
                requires
                    x.significand() >= 0x80_0000,
                    power2::pow2(up) >= 0x200,
            ;
        }
        return most;
    } else {
        let unit: u64 = power_of_two(exponent - 150);
        proof {
            power2::lemma2_to64();
            if exponent - 150 < 8 {
                power2::lemma_pow2_strictly_increases((exponent - 150) as nat, 8);
            }
        }
        assert(significand * unit < 0x1_0000_0000) by (nonlinear_arith)
            requires
                significand < 0x100_0000,
                unit <= 0x100,
        ;
        significand * unit
    };
    assert(rounded == x.rounded());
    if rounded > most as u64 {
        most
    } else if rounded < 1 {
        1
    } else {
        rounded as u32
    }
}

// Single-precision arithmetic on fractions that are not negative.

/// The whole number nearest to a fraction, halves to the even one.
pub open spec fn half_even(num: int, den: int) -> int {
    let (q, r) = (num / den, num % den);
    if 2 * r < den || (2 * r == den && q % 2 == 0) {
        q
    } else {
        q + 1
    }
}

/// How many binary places fill the 24 bits of a significand, from `a` on.
pub open spec fn places(num: int, den: int, a: nat) -> nat
    decreases 64 - a,
{
    if a >= 64 || num * power2::pow2(a) >= 0x80_0000 * den {
        a
    } else {
        places(num, den, a + 1)
    }
}

/// How many bits of a large number do not fit into a significand, from `j` on.
pub open spec fn excess(num: int, den: int, j: nat) -> nat
    decreases 128 - j,
{
    if j >= 128 || num < 0x100_0000 * (den * power2::pow2(j)) {
        j
    } else {
        excess(num, den, j + 1)
    }
}

/// The single-precision number nearest to a fraction, as a fraction. A
/// significand has 24 bits, and halves go to the even one. There are at most 64
/// binary places, which is short of single precision only below 2 to the power
/// of -41.
pub open spec fn single(num: int, den: int) -> (int, int) {
    if num <= 0 {
        (0, 1)
    } else if num < 0x100_0000 * den {
        let a = places(num, den, 0);
        (half_even(num * power2::pow2(a), den), power2::pow2(a) as int)
    } else {
        let unit = power2::pow2(excess(num, den, 0));
        (half_even(num, den * unit) * unit, 1)
    }
}

/// The whole number nearest to a fraction, halves upwards.
pub open spec fn half_up(num: int, den: int) -> int {
    (2 * num + den) / (2 * den)
}

/// A size in thousandths times a width over 1920, computed in single precision
/// and rounded to a whole number.
pub open spec fn scaled_size(milli: int, width: int) -> int {
    let v = single(milli, 1000);
    let w = single(width, 1);
    let s = single(w.0, 1920 * w.1);
    let p = single(v.0 * s.0, v.1 * s.1);
    half_up(p.0, p.1)
}

fn round_half_even(num: u128, den: u128) -> (q: u128)
    requires
        0 < den <= 0x1_0000_0000_0000_0000_0000_0000_0000,
        num <= 0x1000_0000_0000_0000_0000_0000_0000_0000,
    ensures
        q == half_even(num as int, den as int),
        2 * (q * den) <= 2 * num + den,
        2 * num <= 2 * (q * den) + den,
{
    let q: u128 = num / den;
    let r: u128 = num % den;
    proof {
        assert(num == q * den + r) by (nonlinear_arith)
            requires
                q == num as int / den as int,
                r == num as int % den as int,
                den > 0,
        ;
        assert((q + 1) * den == q * den + den) by (nonlinear_arith);
        assert(q <= num) by (nonlinear_arith)
            requires
                num == q * den + r,
                den >= 1,
                r >= 0,
                q >= 0,
        ;
    }
    if 2 * r < den || (2 * r == den && q % 2 == 0) {
        q
    } else {
        q + 1
    }
}

/// A fraction of at least one stays at least one.
proof fn lemma_at_least(m: int, n: int, num: int, den: int, unit: int)
    requires
        0 < den <= num,
        0 < unit,
        n == num * unit,
        m == half_even(n, den),
    ensures
        m >= unit,
{
    assert(n / den >= unit) by (nonlinear_arith)
        requires
            0 < den <= num,
            0 < unit,
            n == num * unit,
    ;
}

/// Round a fraction to single precision.
fn to_single(num: u128, den: u128) -> (f: (u128, u128))
    requires
        0 < den <= 0x1_0000_0000_0000_0000_0000,
        num <= 0x1000_0000_0000_0000_0000_0000_0000_0000,
    ensures
        (f.0 as int, f.1 as int) == single(num as int, den as int),
        0 < f.1 <= 0x1_0000_0000_0000_0000,
        num < 0x100_0000 * den ==> f.0 <= 0x100_0000,
        num >= 0x100_0000 * den ==> f.0 <= 2 * num && f.1 == 1,
        0 < num < 0x100_0000 * den ==> f.1 * num < 0x100_0000 * den,
        num >= den ==> f.0 >= f.1,
        num == 0 ==> f.0 == 0 && f.1 == 1,
{
    if num == 0 {
        return (0, 1);
    }
    proof {
        power2::lemma2_to64();
    }
    if num < 0x100_0000 * den {
        let mut a: u32 = 0;
        let mut n: u128 = num;
        let mut unit: u128 = 1;
        while a < 64 && n < 0x80_0000 * den
            invariant
                a <= 64,
                0 < den <= 0x1_0000_0000_0000_0000_0000,
                0 < num,
                unit == power2::pow2(a as nat),
                n == num * unit,
                0 < unit <= 0x1_0000_0000_0000_0000,
                n < 0x100_0000 * den,
                power2::pow2(64) == 0x1_0000_0000_0000_0000,
                places(num as int, den as int, 0) == places(num as int, den as int, a as nat),
            decreases 64 - a,
        {
            proof {
                power2::lemma_pow2_unfold((a + 1) as nat);
                if a + 1 < 64 {
                    power2::lemma_pow2_strictly_increases((a + 1) as nat, 64);
                }
                assert(num * (2 * unit) == 2 * (num * unit)) by (nonlinear_arith);
            }
            a = a + 1;
            n = 2 * n;
            unit = 2 * unit;
        }
        let m: u128 = round_half_even(n, den);
        proof {
            assert(places(num as int, den as int, 0) == a);
            assert(unit * num == num * unit) by (nonlinear_arith);
            assert(m <= 0x100_0000) by (nonlinear_arith)
                requires
                    2 * (m * den) <= 2 * n + den,
                    n < 0x100_0000 * den,
                    den > 0,
            ;
            if num >= den {
                lemma_at_least(m as int, n as int, num as int, den as int, unit as int);
            }
        }
        (m, unit)
    } else {
        let mut j: u32 = 0;
        let mut d: u128 = den;
        let mut unit: u128 = 1;
        proof {
            assert(den * 1 == den);
        }
        while j < 128 && num >= 0x100_0000 * d
            invariant
                j <= 128,
                0 < den <= d,
                num <= 0x1000_0000_0000_0000_0000_0000_0000_0000,
                unit == power2::pow2(j as nat),
                d == den * unit,
                0 < unit <= d,
                j > 0 ==> 0x80_0000 * d <= num,
                j == 0 ==> d <= num && d <= 0x1_0000_0000_0000_0000_0000,
                excess(num as int, den as int, 0) == excess(num as int, den as int, j as nat),
            decreases 128 - j,
        {
            proof {
                power2::lemma_pow2_unfold((j + 1) as nat);
                assert(den * (2 * unit) == 2 * (den * unit)) by (nonlinear_arith);
            }
            j = j + 1;
            d = 2 * d;
            unit = 2 * unit;
        }
        proof {
            assert(excess(num as int, den as int, 0) == j);
        }
        let m: u128 = round_half_even(num, d);
        proof {
            assert(m * unit <= m * d) by (nonlinear_arith)
                requires
                    unit <= d,
                    m >= 0,
            ;
            assert(m >= 1) by (nonlinear_arith)
                requires
                    2 * num <= 2 * (m * d) + d,
                    d <= num,
                    0 < d,
            ;
            assert(m * unit >= 1) by (nonlinear_arith)
                requires
                    m >= 1,
                    unit >= 1,
            ;
        }
        (m * unit, 1)
    }
}

/// Scale a size to a width.
pub fn scale_size(milli: u32, width: u32) -> (v: u64)
    ensures
        v == scaled_size(milli as int, width as int),
{
    let v: (u128, u128) = to_single(milli as u128, 1000);
    let w: (u128, u128) = to_single(width as u128, 1);
    assert(v.1 < 0x4_0000_0000) by (nonlinear_arith)
        requires
            v.1 == 1 || v.1 * milli < 0x100_0000 * 1000,
            v.1 == 1 || milli >= 1,
    ;
    let s: (u128, u128) = to_single(w.0, 1920 * w.1);
    proof {
        assert(s.1 < 0x8_0000_0000) by (nonlinear_arith)
            requires
                s.1 == 1 || s.1 * w.0 < 0x100_0000 * (1920 * w.1),
                s.1 == 1 || w.0 >= w.1,
                w.1 > 0,
                s.1 > 0,
        ;
        assert(v.0 * s.0 <= 0x100_0000 * 0x100_0000) by (nonlinear_arith)
            requires
                0 <= v.0 <= 0x100_0000,
                0 <= s.0 <= 0x100_0000,
        ;
        assert(0 < v.1 * s.1 <= 0x4_0000_0000 * 0x8_0000_0000) by (nonlinear_arith)
            requires
                0 < v.1 <= 0x4_0000_0000,
                0 < s.1 <= 0x8_0000_0000,
        ;
    }
    let p: (u128, u128) = to_single(v.0 * s.0, v.1 * s.1);
    proof {
        assert((2 * p.0 + p.1) / (2 * p.1) <= p.0 + 1) by (nonlinear_arith)
            requires
                p.0 >= 0,
                p.1 >= 1,
        ;
    }
    ((2 * p.0 + p.1) / (2 * p.1)) as u64
}

proof fn lemma_half_even(num: int, den: int)
    requires
        num >= 0,
        den > 0,
    ensures
        0 <= half_even(num, den),
        2 * (half_even(num, den) * den) <= 2 * num + den,
        2 * num <= 2 * (half_even(num, den) * den) + den,
{
    let (q, r) = (num / den, num % den);
    assert(num == q * den + r && q >= 0) by (nonlinear_arith)
        requires
            q == num / den,
            r == num % den,
            num >= 0,
            den > 0,
    ;
    assert((q + 1) * den == q * den + den) by (nonlinear_arith);
}

proof fn lemma_places(num: int, den: int, a: nat)
    requires
        num * power2::pow2(64) >= 0x80_0000 * den,
        num * power2::pow2(a) < 0x100_0000 * den,
        a <= 64,
    ensures
        num * power2::pow2(places(num, den, a)) >= 0x80_0000 * den,
        num * power2::pow2(places(num, den, a)) < 0x100_0000 * den,
    decreases 64 - a,
{
    if a < 64 && num * power2::pow2(a) < 0x80_0000 * den {
        power2::lemma_pow2_unfold(a + 1);
        assert(num * (2 * power2::pow2(a)) == 2 * (num * power2::pow2(a))) by (nonlinear_arith);
        lemma_places(num, den, a + 1);
    }
}

/// How near the single-precision number is, where it has binary places.
proof fn lemma_single(num: int, den: int)
    requires
        0 < num < 0x100_0000 * den,
        num * power2::pow2(64) >= 0x80_0000 * den,
    ensures
        ({
            let (m, u) = single(num, den);
            &&& 0 <= m <= 0x100_0000
            &&& u >= 1
            &&& num * u >= 0x80_0000 * den
            &&& 2 * (m * den) <= 2 * (num * u) + den
            &&& 2 * (num * u) <= 2 * (m * den) + den
        }),
{
    let a = places(num, den, 0);
    power2::lemma2_to64();
    lemma_places(num, den, 0);
    power2::lemma_pow2_pos(a);
    assert(num * power2::pow2(a) >= 0) by (nonlinear_arith)
        requires
            num > 0,
            power2::pow2(a) > 0,
    ;
    lemma_half_even(num * power2::pow2(a), den);
    let m = half_even(num * power2::pow2(a), den);
    assert(m <= 0x100_0000) by (nonlinear_arith)
        requires
            2 * (m * den) <= 2 * (num * power2::pow2(a)) + den,
            num * power2::pow2(a) < 0x100_0000 * den,
            den > 0,
    ;
}

proof fn lemma_single_not_negative(num: int, den: int)
    requires
        num >= 0,
        den > 0,
    ensures
        single(num, den).0 >= 0,
        single(num, den).1 > 0,
{
    if 0 < num < 0x100_0000 * den {
        let u = power2::pow2(places(num, den, 0));
        power2::lemma_pow2_pos(places(num, den, 0));
        assert(num * u >= 0) by (nonlinear_arith)
            requires
                num > 0,
                u > 0,
        ;
        lemma_half_even(num * u, den);
    } else if num > 0 {
        let u = power2::pow2(excess(num, den, 0));
        power2::lemma_pow2_pos(excess(num, den, 0));
        assert(den * u > 0) by (nonlinear_arith)
            requires
                den > 0,
                u > 0,
        ;
        lemma_half_even(num, den * u);
        assert(half_even(num, den * u) * u >= 0) by (nonlinear_arith)
            requires
                half_even(num, den * u) >= 0,
                u > 0,
        ;
    }
}

/// Scaled sizes are not negative.
pub proof fn lemma_scaled_not_negative(milli: int, width: int)
    requires
        milli >= 0,
        width >= 0,
    ensures
        scaled_size(milli, width) >= 0,
{
    lemma_single_not_negative(milli, 1000);
    lemma_single_not_negative(width, 1);
    let (v, w) = (single(milli, 1000), single(width, 1));
    lemma_single_not_negative(w.0, 1920 * w.1);
    let s = single(w.0, 1920 * w.1);
    assert(v.0 * s.0 >= 0 && v.1 * s.1 > 0) by (nonlinear_arith)
        requires
            v.0 >= 0,
            s.0 >= 0,
            v.1 > 0,
            s.1 > 0,
    ;
    lemma_single_not_negative(v.0 * s.0, v.1 * s.1);
    let p = single(v.0 * s.0, v.1 * s.1);
    assert((2 * p.0 + p.1) / (2 * p.1) >= 0) by (nonlinear_arith)
        requires
            p.0 >= 0,
            p.1 > 0,
    ;
}

proof fn lemma_excess(num: int, den: int, j: nat)
    requires
        num >= 0x80_0000 * (den * power2::pow2(j)),
    ensures
        num >= 0x80_0000 * (den * power2::pow2(excess(num, den, j))),
    decreases 128 - j,
{
    if j < 128 && num >= 0x100_0000 * (den * power2::pow2(j)) {
        power2::lemma_pow2_unfold(j + 1);
        assert(den * (2 * power2::pow2(j)) == 2 * (den * power2::pow2(j))) by (nonlinear_arith);
        lemma_excess(num, den, j + 1);
    }
}

/// A fraction `m` over `u` is `num` over `den`, times a factor between `low` over
/// `one` and `high` over `one`.
spec fn between(f: (int, int), num: int, den: int, low: int, high: int, one: int) -> bool {
    &&& f.0 >= 0
    &&& f.1 >= 1
    &&& low * (num * f.1) <= one * (f.0 * den)
    &&& one * (f.0 * den) <= high * (num * f.1)
}

/// Rounding to single precision changes a number by at most one part in two to the
/// power of 24, unless it is tiny.
proof fn lemma_single_between(num: int, den: int)
    requires
        0 < num,
        0 < den,
        num * power2::pow2(64) >= 0x80_0000 * den,
    ensures
        between(single(num, den), num, den, 0xff_ffff, 0x100_0001, 0x100_0000),
{
    let (m, u) = single(num, den);
    if num < 0x100_0000 * den {
        lemma_single(num, den);
    } else {
        let e = excess(num, den, 0);
        let unit = power2::pow2(e) as int;
        power2::lemma2_to64();
        power2::lemma_pow2_pos(e);
        assert(den * power2::pow2(0) == den) by (nonlinear_arith)
            requires
                power2::pow2(0) == 1,
        ;
        lemma_excess(num, den, 0);
        let d = den * unit;
        assert(d > 0) by (nonlinear_arith)
            requires
                d == den * unit,
                den > 0,
                unit > 0,
        ;
        lemma_half_even(num, d);
        let q = half_even(num, d);
        assert(q * d == (q * unit) * den) by (nonlinear_arith)
            requires
                d == den * unit,
        ;
        assert(q * unit >= 0) by (nonlinear_arith)
            requires
                q >= 0,
                unit > 0,
        ;
        assert(m == q * unit && u == 1);
        assert(num * 1 == num) by (nonlinear_arith);
    }
}

proof fn lemma_pairs(a: int, b: int, c: int, d: int)
    ensures
        (a * b) * (c * d) == (a * c) * (b * d),
{
    assert((a * b) * (c * d) == (a * c) * (b * d)) by (nonlinear_arith);
}

/// The product of two fractions near to two others is near to their product.
proof fn lemma_between_times(
    f: (int, int),
    num: int,
    den: int,
    low: int,
    high: int,
    one: int,
    g: (int, int),
    n: int,
    d: int,
    lo: int,
    hi: int,
    o: int,
)
    requires
        between(f, num, den, low, high, one),
        between(g, n, d, lo, hi, o),
        num >= 0,
        den > 0,
        n >= 0,
        d > 0,
        low >= 0,
        lo >= 0,
        one > 0,
        o > 0,
    ensures
        between((f.0 * g.0, f.1 * g.1), num * n, den * d, low * lo, high * hi, one * o),
{
    let (a, b, c) = (low * (num * f.1), one * (f.0 * den), high * (num * f.1));
    let (x, y, z) = (lo * (n * g.1), o * (g.0 * d), hi * (n * g.1));
    assert(a >= 0 && x >= 0 && b >= 0 && y >= 0) by (nonlinear_arith)
        requires
            a == low * (num * f.1),
            x == lo * (n * g.1),
            a <= b,
            x <= y,
            low >= 0,
            lo >= 0,
            num >= 0,
            n >= 0,
            f.1 >= 1,
            g.1 >= 1,
    ;
    assert(a * x <= b * y && b * y <= c * z) by (nonlinear_arith)
        requires
            0 <= a <= b <= c,
            0 <= x <= y <= z,
    ;
    lemma_pairs(num, f.1, n, g.1);
    lemma_pairs(low, num * f.1, lo, n * g.1);
    lemma_pairs(high, num * f.1, hi, n * g.1);
    lemma_pairs(f.0, den, g.0, d);
    lemma_pairs(one, f.0 * den, o, g.0 * d);
    assert(f.0 * g.0 >= 0 && f.1 * g.1 >= 1) by (nonlinear_arith)
        requires
            f.0 >= 0,
            g.0 >= 0,
            f.1 >= 1,
            g.1 >= 1,
    ;
}

/// Rounding a fraction near to another leaves it near to that other.
proof fn lemma_between_single(
    f: (int, int),
    num: int,
    den: int,
    low: int,
    high: int,
    one: int,
)
    requires
        between(f, num, den, low, high, one),
        f.0 > 0,
        f.0 * power2::pow2(64) >= 0x80_0000 * f.1,
        num > 0,
        den > 0,
        low >= 0,
        high >= 0,
        one > 0,
    ensures
        between(
            single(f.0, f.1),
            num,
            den,
            0xff_ffff * low,
            0x100_0001 * high,
            0x100_0000 * one,
        ),
{
    lemma_single_between(f.0, f.1);
    let (m, u) = single(f.0, f.1);
    let (p, q) = (f.0, f.1);
    assert((0xff_ffff * low) * (num * u) <= (0x100_0000 * one) * (m * den)) by (nonlinear_arith)
        requires
            low * (num * q) <= one * (p * den),
            0xff_ffff * (p * u) <= 0x100_0000 * (m * q),
            q >= 1,
            u >= 1,
            one > 0,
            den > 0,
    {
        let (x, y) = (low * (num * q), one * (p * den));
        let (v, w) = (0xff_ffff * (p * u), 0x100_0000 * (m * q));
        assert(0xff_ffff * u * x <= 0xff_ffff * u * y);
        assert(v * (one * den) <= w * (one * den));
        assert(0xff_ffff * u * y == v * (one * den));
        assert(0xff_ffff * u * x == q * ((0xff_ffff * low) * (num * u)));
        assert(w * (one * den) == q * ((0x100_0000 * one) * (m * den)));
    }
    assert((0x100_0000 * one) * (m * den) <= (0x100_0001 * high) * (num * u)) by (nonlinear_arith)
        requires
            one * (p * den) <= high * (num * q),
            0x100_0000 * (m * q) <= 0x100_0001 * (p * u),
            q >= 1,
            u >= 1,
            one > 0,
            den > 0,
    {
        let (x, y) = (one * (p * den), high * (num * q));
        let (v, w) = (0x100_0000 * (m * q), 0x100_0001 * (p * u));
        assert(0x100_0001 * u * x <= 0x100_0001 * u * y);
        assert(v * (one * den) <= w * (one * den));
        assert(0x100_0001 * u * x == w * (one * den));
        assert(0x100_0001 * u * y == q * ((0x100_0001 * high) * (num * u)));
        assert(v * (one * den) == q * ((0x100_0000 * one) * (m * den)));
    }
}

/// A fraction near to a number that is not tiny is not tiny.
proof fn lemma_between_lower(
    f: (int, int),
    num: int,
    den: int,
    low: int,
    high: int,
    one: int,
)
    requires
        between(f, num, den, low, high, one),
        num >= 1,
        0 < den <= 0x100_0000,
        0 < one <= 2 * low,
    ensures
        f.0 > 0,
        f.0 * power2::pow2(64) >= 0x80_0000 * f.1,
{
    power2::lemma2_to64();
    assert(f.1 <= 2 * (f.0 * den)) by (nonlinear_arith)
        requires
            low * (num * f.1) <= one * (f.0 * den),
            num >= 1,
            f.1 >= 1,
            0 < one <= 2 * low,
            f.0 * den >= 0,
    {
        assert(low * f.1 <= low * (num * f.1));
        assert(one * (f.0 * den) <= 2 * low * (f.0 * den));
        assert(low * f.1 <= low * (2 * (f.0 * den)));
    }
    assert(f.0 * den <= f.0 * 0x100_0000) by (nonlinear_arith)
        requires
            f.0 >= 0,
            den <= 0x100_0000,
    ;
}

/// Scaling is exact to within half a pixel and one part in two to the power of 21.
#[verifier::rlimit(40)]
pub proof fn lemma_scaled_near(milli: int, width: int)
    requires
        1 <= milli,
        1 <= width,
    ensures
        0x20_0000 * (1_920_000 * scaled_size(milli, width)) <= 0x20_0001 * (milli * width)
            + 0x20_0000 * 960_000,
        0x1f_ffff * (milli * width) <= 0x20_0000 * (1_920_000 * scaled_size(milli, width))
            + 0x20_0000 * 960_000,
{
    let (low, high, one) = (0xff_ffffint, 0x100_0001int, 0x100_0000int);
    power2::lemma2_to64();
    lemma_single_between(milli, 1000);
    lemma_single_between(width, 1);
    let (v, w) = (single(milli, 1000), single(width, 1));
    let d = (w.0, 1920 * w.1);
    assert(between(d, width, 1920, low, high, one)) by {
        assert(width * (1920 * w.1) == 1920 * (width * w.1)) by (nonlinear_arith);
    }
    lemma_between_lower(d, width, 1920, low, high, one);
    lemma_between_single(d, width, 1920, low, high, one);
    let s = single(d.0, d.1);
    lemma_between_times(
        v,
        milli,
        1000,
        low,
        high,
        one,
        s,
        width,
        1920,
        low * low,
        high * high,
        one * one,
    );
    let (n, f) = (milli * width, (v.0 * s.0, v.1 * s.1));
    assert(n >= 1) by (nonlinear_arith)
        requires
            n == milli * width,
            milli >= 1,
            width >= 1,
    ;
    let (l3, h3, o3) = (low * (low * low), high * (high * high), one * (one * one));
    lemma_between_lower(f, n, 1_920_000, l3, h3, o3);
    lemma_between_single(f, n, 1_920_000, l3, h3, o3);
    let (m, u) = single(f.0, f.1);
    let (l4, h4, o4) = (low * l3, high * h3, one * o3);
    let (x, y) = (n * u, m * 1_920_000);
    assert(0x1f_ffff * x <= 0x20_0000 * y && 0x20_0000 * y <= 0x20_0001 * x) by {
        assert(l4 * x <= o4 * y && o4 * y <= h4 * x);
        assert(x >= 0) by (nonlinear_arith)
            requires
                x == n * u,
                n >= 1,
                u >= 1,
        ;
    }
    let r = half_up(m, u);
    lemma_half_up_near(n, m, u, r);
}

proof fn lemma_half_up_near(n: int, m: int, u: int, r: int)
    requires
        u >= 1,
        r == half_up(m, u),
        0x1f_ffff * (n * u) <= 0x20_0000 * (m * 1_920_000),
        0x20_0000 * (m * 1_920_000) <= 0x20_0001 * (n * u),
    ensures
        0x20_0000 * (1_920_000 * r) <= 0x20_0001 * n + 0x20_0000 * 960_000,
        0x1f_ffff * n <= 0x20_0000 * (1_920_000 * r) + 0x20_0000 * 960_000,
{
    assert(2 * (u * r) <= 2 * m + u && 2 * m <= 2 * (u * r) + u) by (nonlinear_arith)
        requires
            r == (2 * m + u) / (2 * u),
            u > 0,
    ;
    let (nu, ur) = (n * u, u * r);
    assert(1_920_000 * ur <= 1_920_000 * m + 960_000 * u);
    assert(1_920_000 * m <= 1_920_000 * ur + 960_000 * u);
    let top = 0x20_0001 * n + 0x20_0000 * 960_000 - 0x20_0000 * (1_920_000 * r);
    let bottom = 0x20_0000 * (1_920_000 * r) + 0x20_0000 * 960_000 - 0x1f_ffff * n;
    assert(top * u == 0x20_0001 * nu + 2_013_265_920_000 * u - 4_026_531_840_000 * ur)
        by (nonlinear_arith)
        requires
            nu == n * u,
            ur == u * r,
            top == 0x20_0001 * n + 0x20_0000 * 960_000 - 0x20_0000 * (1_920_000 * r),
    ;
    assert(bottom * u == 4_026_531_840_000 * ur + 2_013_265_920_000 * u - 0x1f_ffff * nu)
        by (nonlinear_arith)
        requires
            nu == n * u,
            ur == u * r,
            bottom == 0x20_0000 * (1_920_000 * r) + 0x20_0000 * 960_000 - 0x1f_ffff * n,
    ;
    assert(top >= 0) by (nonlinear_arith)
        requires
            top * u >= 0,
            u >= 1,
    ;
    assert(bottom >= 0) by (nonlinear_arith)
        requires
            bottom * u >= 0,
            u >= 1,
    ;
}

/// The least whole number that is not below a fraction.
pub open spec fn ceiling(num: int, den: int) -> int {
    (num + den - 1) / den
}

/// A count times a size times a factor in hundredths, computed in single precision
/// and rounded up to a whole number.
pub open spec fn product_up(count: int, size: int, percent: int) -> int {
    let c = single(count, 1);
    let s = single(size, 1);
    let p = single(c.0 * s.0, c.1 * s.1);
    let k = single(percent, 100);
    let w = single(p.0 * k.0, p.1 * k.1);
    ceiling(w.0, w.1)
}

/// Multiply a count, a size and a factor in hundredths, and round up.
pub fn multiply_up(count: u64, size: u32, percent: u32) -> (v: u128)
    requires
        1 <= percent <= 100,
    ensures
        v == product_up(count as int, size as int, percent as int),
{
    let c: (u128, u128) = to_single(count as u128, 1);
    let s: (u128, u128) = to_single(size as u128, 1);
    proof {
        assert(c.1 <= 0x100_0000) by (nonlinear_arith)
            requires
                c.1 == 1 || c.1 * count < 0x100_0000,
                c.1 == 1 || count >= 1,
        ;
        assert(s.1 <= 0x100_0000) by (nonlinear_arith)
            requires
                s.1 == 1 || s.1 * size < 0x100_0000,
                s.1 == 1 || size >= 1,
        ;
        assert(0 <= c.0 * s.0 <= 0x2_0000_0000_0000_0000 * 0x2_0000_0000) by (nonlinear_arith)
            requires
                0 <= c.0 <= 0x2_0000_0000_0000_0000,
                0 <= s.0 <= 0x2_0000_0000,
        ;
        assert(0 < c.1 * s.1 <= 0x100_0000 * 0x100_0000) by (nonlinear_arith)
            requires
                0 < c.1 <= 0x100_0000,
                0 < s.1 <= 0x100_0000,
        ;
        assert(count >= 1 && size >= 1 ==> c.0 * s.0 >= c.1 * s.1) by (nonlinear_arith)
            requires
                count >= 1 ==> c.0 >= c.1,
                size >= 1 ==> s.0 >= s.1,
                c.1 > 0,
                s.1 > 0,
        ;
        assert(count == 0 || size == 0 ==> c.0 * s.0 == 0) by (nonlinear_arith)
            requires
                count == 0 ==> c.0 == 0,
                size == 0 ==> s.0 == 0,
        ;
    }
    let n: u128 = c.0 * s.0;
    let d: u128 = c.1 * s.1;
    let p: (u128, u128) = to_single(n, d);
    let k: (u128, u128) = to_single(percent as u128, 100);
    proof {
        assert(p.1 <= 0x100_0000) by (nonlinear_arith)
            requires
                p.1 == 1 || p.1 * n < 0x100_0000 * d,
                p.1 == 1 || n >= d,
                d > 0,
        ;
        assert(k.1 <= 0x1_0000_0000) by (nonlinear_arith)
            requires
                k.1 * percent < 0x100_0000 * 100,
                percent >= 1,
        ;
        assert(0 <= p.0 * k.0 <= 0x8_0000_0000_0000_0000_0000_0000 * 0x100_0000) by (nonlinear_arith)
            requires
                0 <= p.0 <= 0x8_0000_0000_0000_0000_0000_0000,
                0 <= k.0 <= 0x100_0000,
        ;
        assert(0 < p.1 * k.1 <= 0x100_0000 * 0x1_0000_0000) by (nonlinear_arith)
            requires
                0 < p.1 <= 0x100_0000,
                0 < k.1 <= 0x1_0000_0000,
        ;
    }
    let w: (u128, u128) = to_single(p.0 * k.0, p.1 * k.1);
    (w.0 + w.1 - 1) / w.1
}

/// A share of a size in hundredths, computed in single precision and rounded to a
/// whole number.
pub open spec fn rounded_share(size: int, percent: int) -> int {
    let s = single(size, 1);
    let k = single(percent, 100);
    let w = single(s.0 * k.0, s.1 * k.1);
    half_up(w.0, w.1)
}

/// Take a share of a size.
pub fn round_share(size: u32, percent: u32) -> (v: u64)
    requires
        1 <= percent <= 100,
    ensures
        v == rounded_share(size as int, percent as int),
{
    let s: (u128, u128) = to_single(size as u128, 1);
    let k: (u128, u128) = to_single(percent as u128, 100);
    proof {
        assert(s.1 <= 0x100_0000) by (nonlinear_arith)
            requires
                s.1 == 1 || s.1 * size < 0x100_0000,
                s.1 == 1 || size >= 1,
        ;
        assert(k.1 <= 0x1_0000_0000) by (nonlinear_arith)
            requires
                k.1 * percent < 0x100_0000 * 100,
                percent >= 1,
        ;
        assert(0 <= s.0 * k.0 <= 0x2_0000_0000 * 0x100_0000) by (nonlinear_arith)
            requires
                0 <= s.0 <= 0x2_0000_0000,
                0 <= k.0 <= 0x100_0000,
        ;
        assert(0 < s.1 * k.1 <= 0x100_0000 * 0x1_0000_0000) by (nonlinear_arith)
            requires
                0 < s.1 <= 0x100_0000,
                0 < k.1 <= 0x1_0000_0000,
        ;
    }
    let w: (u128, u128) = to_single(s.0 * k.0, s.1 * k.1);
    proof {
        assert((2 * w.0 + w.1) / (2 * w.1) <= w.0 + 1) by (nonlinear_arith)
            requires
                w.0 >= 0,
                w.1 >= 1,
        ;
    }
    ((2 * w.0 + w.1) / (2 * w.1)) as u64
}

/// A product rounded up is not negative.
pub proof fn lemma_product_up_not_negative(count: int, size: int, percent: int)
    requires
        count >= 0,
        size >= 0,
        percent >= 0,
    ensures
        product_up(count, size, percent) >= 0,
        count == 0 || size == 0 ==> product_up(count, size, percent) == 0,
{
    lemma_single_not_negative(count, 1);
    lemma_single_not_negative(size, 1);
    lemma_single_not_negative(percent, 100);
    let (c, s, k) = (single(count, 1), single(size, 1), single(percent, 100));
    assert(c.0 * s.0 >= 0 && c.1 * s.1 > 0) by (nonlinear_arith)
        requires
            c.0 >= 0,
            s.0 >= 0,
            c.1 > 0,
            s.1 > 0,
    ;
    lemma_single_not_negative(c.0 * s.0, c.1 * s.1);
    let p = single(c.0 * s.0, c.1 * s.1);
    assert(p.0 * k.0 >= 0 && p.1 * k.1 > 0) by (nonlinear_arith)
        requires
            p.0 >= 0,
            k.0 >= 0,
            p.1 > 0,
            k.1 > 0,
    ;
    lemma_single_not_negative(p.0 * k.0, p.1 * k.1);
    let w = single(p.0 * k.0, p.1 * k.1);
    assert((w.0 + w.1 - 1) / w.1 >= 0) by (nonlinear_arith)
        requires
            w.0 >= 0,
            w.1 > 0,
    ;
    if count == 0 || size == 0 {
        assert(c.0 * s.0 == 0) by (nonlinear_arith)
            requires
                c.0 == 0 || s.0 == 0,
        ;
        assert(p.0 * k.0 == 0) by (nonlinear_arith)
            requires
                p.0 == 0,
        ;
        assert((0 + 1 - 1) / 1int == 0);
    }
}

/// A product rounded up is not below the exact one by more than one part in two to
/// the power of 21.
#[verifier::rlimit(40)]
pub proof fn lemma_product_up_low(count: int, size: int, percent: int)
    requires
        count >= 1,
        size >= 1,
        percent >= 1,
    ensures
        0x1f_ffff * ((count * size) * percent) <= 0x20_0000 * (100 * product_up(
            count,
            size,
            percent,
        )),
{
    let (low, high, one) = (0xff_ffffint, 0x100_0001int, 0x100_0000int);
    power2::lemma2_to64();
    lemma_single_between(count, 1);
    lemma_single_between(size, 1);
    lemma_single_between(percent, 100);
    let (c, s, k) = (single(count, 1), single(size, 1), single(percent, 100));
    lemma_between_times(c, count, 1, low, high, one, s, size, 1, low, high, one);
    let (n, f) = (count * size, (c.0 * s.0, c.1 * s.1));
    let (l2, h2, o2) = (low * low, high * high, one * one);
    assert(n >= 1) by (nonlinear_arith)
        requires
            n == count * size,
            count >= 1,
            size >= 1,
    ;
    lemma_between_lower(f, n, 1, l2, h2, o2);
    lemma_between_single(f, n, 1, l2, h2, o2);
    let p = single(f.0, f.1);
    let (l3, h3, o3) = (low * l2, high * h2, one * o2);
    lemma_between_times(p, n, 1, l3, h3, o3, k, percent, 100, low, high, one);
    let (x, g) = (n * percent, (p.0 * k.0, p.1 * k.1));
    let (l4, h4, o4) = (l3 * low, h3 * high, o3 * one);
    assert(x >= 1) by (nonlinear_arith)
        requires
            x == n * percent,
            n >= 1,
            percent >= 1,
    ;
    lemma_between_lower(g, x, 100, l4, h4, o4);
    lemma_between_single(g, x, 100, l4, h4, o4);
    let (m, u) = single(g.0, g.1);
    let (l5, o5) = (low * l4, one * o4);
    let (xu, v) = (x * u, (m + u - 1) / u);
    assert(0x1f_ffff * xu <= 0x20_0000 * (m * 100)) by {
        assert(l5 * xu <= o5 * (m * 100));
        assert(xu >= 0) by (nonlinear_arith)
            requires
                xu == x * u,
                x >= 1,
                u >= 1,
        ;
    }
    assert(m <= v * u) by (nonlinear_arith)
        requires
            v == (m + u - 1) / u,
            u >= 1,
    ;
    assert(0x1f_ffff * x <= 0x20_0000 * (100 * v)) by (nonlinear_arith)
        requires
            0x1f_ffff * (x * u) <= 0x20_0000 * (m * 100),
            m <= v * u,
            u >= 1,
    ;
}

/// A product rounded up is less than one above the exact one, but for one part in two to
/// the power of 21.
#[verifier::rlimit(40)]
pub proof fn lemma_product_up_high(count: int, size: int, percent: int)
    requires
        count >= 1,
        size >= 1,
        percent >= 1,
    ensures
        0x20_0000 * (100 * product_up(count, size, percent)) <= 0x20_0001 * ((count * size)
            * percent) + 0x20_0000 * 100,
{
    let (low, high, one) = (0xff_ffffint, 0x100_0001int, 0x100_0000int);
    power2::lemma2_to64();
    lemma_single_between(count, 1);
    lemma_single_between(size, 1);
    lemma_single_between(percent, 100);
    let (c, s, k) = (single(count, 1), single(size, 1), single(percent, 100));
    lemma_between_times(c, count, 1, low, high, one, s, size, 1, low, high, one);
    let (n, f) = (count * size, (c.0 * s.0, c.1 * s.1));
    let (l2, h2, o2) = (low * low, high * high, one * one);
    assert(n >= 1) by (nonlinear_arith)
        requires
            n == count * size,
            count >= 1,
            size >= 1,
    ;
    lemma_between_lower(f, n, 1, l2, h2, o2);
    lemma_between_single(f, n, 1, l2, h2, o2);
    let p = single(f.0, f.1);
    let (l3, h3, o3) = (low * l2, high * h2, one * o2);
    lemma_between_times(p, n, 1, l3, h3, o3, k, percent, 100, low, high, one);
    let (x, g) = (n * percent, (p.0 * k.0, p.1 * k.1));
    let (l4, h4, o4) = (l3 * low, h3 * high, o3 * one);
    assert(x >= 1) by (nonlinear_arith)
        requires
            x == n * percent,
            n >= 1,
            percent >= 1,
    ;
    lemma_between_lower(g, x, 100, l4, h4, o4);
    lemma_between_single(g, x, 100, l4, h4, o4);
    let (m, u) = single(g.0, g.1);
    let (h5, o5) = (high * h4, one * o4);
    let (xu, v) = (x * u, (m + u - 1) / u);
    assert(0x20_0000 * (m * 100) <= 0x20_0001 * xu) by {
        assert(o5 * (m * 100) <= h5 * xu);
        assert(xu >= 0) by (nonlinear_arith)
            requires
                xu == x * u,
                x >= 1,
                u >= 1,
        ;
    }
    assert(v * u <= m + u - 1) by (nonlinear_arith)
        requires
            v == (m + u - 1) / u,
            u >= 1,
    ;
    assert(0x20_0000 * (100 * v) <= 0x20_0001 * x + 0x20_0000 * 100) by (nonlinear_arith)
        requires
            0x20_0000 * (m * 100) <= 0x20_0001 * (x * u),
            v * u <= m + u - 1,
            u >= 1,
    ;
}

/// Of two fractions the smaller does not round to more.
proof fn lemma_half_even_grows(n1: int, d1: int, n2: int, d2: int)
    requires
        0 <= n1,
        0 < d1,
        0 <= n2,
        0 < d2,
        n1 * d2 <= n2 * d1,
    ensures
        half_even(n1, d1) <= half_even(n2, d2),
{
    let (q1, r1, q2, r2) = (n1 / d1, n1 % d1, n2 / d2, n2 % d2);
    assert(n1 == q1 * d1 + r1 && n2 == q2 * d2 + r2) by (nonlinear_arith)
        requires
            q1 == n1 / d1,
            r1 == n1 % d1,
            q2 == n2 / d2,
            r2 == n2 % d2,
            d1 > 0,
            d2 > 0,
    ;
    let (dd, a, b) = (d1 * d2, r1 * d2, r2 * d1);
    assert(q1 * dd + a <= q2 * dd + b) by (nonlinear_arith)
        requires
            n1 * d2 <= n2 * d1,
            n1 == q1 * d1 + r1,
            n2 == q2 * d2 + r2,
            dd == d1 * d2,
            a == r1 * d2,
            b == r2 * d1,
    ;
    assert(0 <= a && b < dd && dd > 0) by (nonlinear_arith)
        requires
            a == r1 * d2,
            b == r2 * d1,
            dd == d1 * d2,
            0 <= r1,
            r2 < d2,
            d1 > 0,
            d2 > 0,
    ;
    if q1 > q2 {
        assert(q1 * dd >= q2 * dd + dd) by (nonlinear_arith)
            requires
                q1 >= q2 + 1,
                dd > 0,
        ;
    }
    if q1 == q2 {
        assert(2 * r1 >= d1 ==> 2 * a >= dd) by (nonlinear_arith)
            requires
                a == r1 * d2,
                dd == d1 * d2,
                d2 > 0,
        ;
        assert(2 * r1 > d1 ==> 2 * a > dd) by (nonlinear_arith)
            requires
                a == r1 * d2,
                dd == d1 * d2,
                d2 > 0,
        ;
        assert(2 * r2 < d2 ==> 2 * b < dd) by (nonlinear_arith)
            requires
                b == r2 * d1,
                dd == d1 * d2,
                d1 > 0,
        ;
        assert(2 * r2 <= d2 ==> 2 * b <= dd) by (nonlinear_arith)
            requires
                b == r2 * d1,
                dd == d1 * d2,
                d1 > 0,
        ;
    }
}

proof fn lemma_places_least(num: int, den: int, a: nat, b: nat)
    requires
        a <= b <= 64,
        num * power2::pow2(b) >= 0x80_0000 * den,
    ensures
        places(num, den, a) <= b,
    decreases b - a,
{
    if a < b && num * power2::pow2(a) < 0x80_0000 * den {
        lemma_places_least(num, den, a + 1, b);
    }
}

proof fn lemma_excess_least(num: int, den: int, j: nat, b: nat)
    requires
        j <= b <= 128,
        num < 0x100_0000 * (den * power2::pow2(b)),
    ensures
        excess(num, den, j) <= b,
    decreases b - j,
{
    if j < b && num >= 0x100_0000 * (den * power2::pow2(j)) {
        lemma_excess_least(num, den, j + 1, b);
    }
}

proof fn lemma_excess_fits(num: int, den: int, j: nat)
    requires
        j <= 128,
    ensures
        j <= excess(num, den, j) <= 128,
        excess(num, den, j) < 128 ==> num < 0x100_0000 * (den * power2::pow2(
            excess(num, den, j),
        )),
    decreases 128 - j,
{
    if j < 128 && num >= 0x100_0000 * (den * power2::pow2(j)) {
        lemma_excess_fits(num, den, j + 1);
    }
}

/// One power of two is at least twice another that is smaller.
proof fn lemma_next_power(a: nat, b: nat)
    requires
        a < b,
    ensures
        2 * power2::pow2(a) <= power2::pow2(b),
{
    power2::lemma_pow2_unfold(a + 1);
    if a + 1 < b {
        power2::lemma_pow2_strictly_increases(a + 1, b);
    }
}

/// A significand that is full rounds to a full one.
proof fn lemma_half_even_bounds(num: int, den: int)
    requires
        num >= 0,
        den > 0,
    ensures
        num >= 0x80_0000 * den ==> half_even(num, den) >= 0x80_0000,
        num < 0x100_0000 * den ==> half_even(num, den) <= 0x100_0000,
{
    lemma_half_even(num, den);
    let q = half_even(num, den);
    if num >= 0x80_0000 * den {
        assert(q >= 0x80_0000) by (nonlinear_arith)
            requires
                2 * num <= 2 * (q * den) + den,
                num >= 0x80_0000 * den,
                den > 0,
        ;
    }
    if num < 0x100_0000 * den {
        assert(q <= 0x100_0000) by (nonlinear_arith)
            requires
                2 * (q * den) <= 2 * num + den,
                num < 0x100_0000 * den,
                den > 0,
        ;
    }
}

/// Rounding to single precision keeps the order of two fractions with binary places.
proof fn lemma_small_grows(n1: int, d1: int, n2: int, d2: int)
    requires
        0 < n1 < 0x100_0000 * d1,
        0 < n2 < 0x100_0000 * d2,
        n1 * power2::pow2(64) >= 0x80_0000 * d1,
        n1 * d2 <= n2 * d1,
    ensures
        single(n1, d1).0 * single(n2, d2).1 <= single(n2, d2).0 * single(n1, d1).1,
{
    power2::lemma2_to64();
    let (a1, a2) = (places(n1, d1, 0), places(n2, d2, 0));
    let (u1, u2) = (power2::pow2(a1) as int, power2::pow2(a2) as int);
    power2::lemma_pow2_pos(a1);
    power2::lemma_pow2_pos(a2);
    lemma_places(n1, d1, 0);
    lemma_places_least(n1, d1, 0, 64);
    assert(n2 * u1 >= 0x80_0000 * d2) by (nonlinear_arith)
        requires
            n1 * u1 >= 0x80_0000 * d1,
            n1 * d2 <= n2 * d1,
            d1 > 0,
            d2 > 0,
            u1 > 0,
    {
        assert(d1 * (n2 * u1) == u1 * (n2 * d1));
        assert(u1 * (n1 * d2) <= u1 * (n2 * d1));
        assert(u1 * (n1 * d2) == d2 * (n1 * u1));
        assert(d2 * (n1 * u1) >= d2 * (0x80_0000 * d1));
        assert(d1 * (n2 * u1) >= d1 * (0x80_0000 * d2));
    }
    lemma_places_least(n2, d2, 0, a1);
    assert(n2 * power2::pow2(64) >= 0x80_0000 * d2) by {
        if a1 < 64 {
            power2::lemma_pow2_strictly_increases(a1, 64);
        }
        assert(n2 * power2::pow2(64) >= n2 * u1) by (nonlinear_arith)
            requires
                power2::pow2(64) >= u1,
                n2 > 0,
        ;
    }
    lemma_places(n2, d2, 0);
    let (x1, x2) = (n1 * u1, n2 * u2);
    lemma_half_even_bounds(x1, d1);
    lemma_half_even_bounds(x2, d2);
    let (m1, m2) = (half_even(x1, d1), half_even(x2, d2));
    if a1 == a2 {
        assert(x1 * d2 <= x2 * d1) by (nonlinear_arith)
            requires
                x1 == n1 * u1,
                x2 == n2 * u1,
                n1 * d2 <= n2 * d1,
                u1 > 0,
        ;
        lemma_half_even_grows(x1, d1, x2, d2);
        assert(m1 * u2 <= m2 * u1) by (nonlinear_arith)
            requires
                m1 <= m2,
                u1 == u2,
                u1 > 0,
        ;
    } else {
        lemma_next_power(a2, a1);
        assert(m1 * u2 <= m2 * u1) by (nonlinear_arith)
            requires
                m1 <= 0x100_0000,
                m2 >= 0x80_0000,
                2 * u2 <= u1,
                u2 > 0,
        ;
    }
}

/// Rounding to single precision keeps the order of two large numbers.
proof fn lemma_large_grows(n1: int, d1: int, n2: int, d2: int)
    requires
        0 < d1,
        0 < d2,
        n1 >= 0x100_0000 * d1,
        n2 >= 0x100_0000 * d2,
        n1 * d2 <= n2 * d1,
    ensures
        single(n1, d1).0 <= single(n2, d2).0,
{
    power2::lemma2_to64();
    let (e1, e2) = (excess(n1, d1, 0), excess(n2, d2, 0));
    let (u1, u2) = (power2::pow2(e1) as int, power2::pow2(e2) as int);
    power2::lemma_pow2_pos(e1);
    power2::lemma_pow2_pos(e2);
    lemma_excess_fits(n1, d1, 0);
    lemma_excess_fits(n2, d2, 0);
    assert(d1 * power2::pow2(0) == d1 && d2 * power2::pow2(0) == d2) by (nonlinear_arith)
        requires
            power2::pow2(0) == 1,
    ;
    lemma_excess(n1, d1, 0);
    lemma_excess(n2, d2, 0);
    let (x1, x2) = (d1 * u1, d2 * u2);
    assert(x1 > 0 && x2 > 0) by (nonlinear_arith)
        requires
            x1 == d1 * u1,
            x2 == d2 * u2,
            d1 > 0,
            d2 > 0,
            u1 > 0,
            u2 > 0,
    ;
    lemma_half_even_bounds(n1, x1);
    lemma_half_even_bounds(n2, x2);
    let (q1, q2) = (half_even(n1, x1), half_even(n2, x2));
    if e1 > e2 {
        assert(n1 < 0x100_0000 * (d1 * u2)) by (nonlinear_arith)
            requires
                n2 < 0x100_0000 * (d2 * u2),
                n1 * d2 <= n2 * d1,
                d1 > 0,
                d2 > 0,
        {
            assert(d1 * n2 < d1 * (0x100_0000 * (d2 * u2)));
            assert(d2 * n1 < d2 * (0x100_0000 * (d1 * u2)));
        }
        lemma_excess_least(n1, d1, 0, e2);
        assert(false);
    } else if e1 == e2 {
        assert(n1 * x2 <= n2 * x1) by (nonlinear_arith)
            requires
                x1 == d1 * u1,
                x2 == d2 * u1,
                n1 * d2 <= n2 * d1,
                u1 > 0,
        {
            assert(n1 * x2 == u1 * (n1 * d2));
            assert(n2 * x1 == u1 * (n2 * d1));
        }
        lemma_half_even_grows(n1, x1, n2, x2);
        assert(q1 * u1 <= q2 * u2) by (nonlinear_arith)
            requires
                q1 <= q2,
                u1 == u2,
                u1 > 0,
        ;
    } else {
        lemma_next_power(e1, e2);
        assert(q1 * u1 <= q2 * u2) by (nonlinear_arith)
            requires
                q1 <= 0x100_0000,
                q2 >= 0x80_0000,
                2 * u1 <= u2,
                u1 > 0,
        ;
    }
}

/// Rounding to single precision keeps the order of two fractions that are not tiny.
proof fn lemma_single_grows(n1: int, d1: int, n2: int, d2: int)
    requires
        0 < n1,
        0 < d1,
        0 < n2,
        0 < d2,
        n1 * power2::pow2(64) >= 0x80_0000 * d1,
        n1 * d2 <= n2 * d1,
    ensures
        single(n1, d1).0 * single(n2, d2).1 <= single(n2, d2).0 * single(n1, d1).1,
{
    if n1 >= 0x100_0000 * d1 {
        assert(n2 >= 0x100_0000 * d2) by (nonlinear_arith)
            requires
                n1 >= 0x100_0000 * d1,
                n1 * d2 <= n2 * d1,
                d1 > 0,
                d2 > 0,
        {
            assert(d2 * n1 >= d2 * (0x100_0000 * d1));
            assert(d1 * n2 >= d1 * (0x100_0000 * d2));
        }
        lemma_large_grows(n1, d1, n2, d2);
    } else if n2 < 0x100_0000 * d2 {
        lemma_small_grows(n1, d1, n2, d2);
    } else {
        power2::lemma2_to64();
        lemma_single(n1, d1);
        let (m, u) = single(n1, d1);
        let e = excess(n2, d2, 0);
        assert(d2 * power2::pow2(0) == d2) by (nonlinear_arith)
            requires
                power2::pow2(0) == 1,
        ;
        lemma_excess_fits(n2, d2, 1);
        lemma_excess(n2, d2, 0);
        let unit = power2::pow2(e) as int;
        if e > 1 {
            power2::lemma_pow2_strictly_increases(1, e);
        }
        assert(d2 * unit > 0) by (nonlinear_arith)
            requires
                d2 > 0,
                unit >= 2,
        ;
        lemma_half_even_bounds(n2, d2 * unit);
        let q = half_even(n2, d2 * unit);
        assert(q * unit >= 0x100_0000) by (nonlinear_arith)
            requires
                q >= 0x80_0000,
                unit >= 2,
        ;
        let v = q * unit;
        assert(m * 1 <= v * u) by (nonlinear_arith)
            requires
                m <= 0x100_0000 <= v,
                u >= 1,
        ;
    }
}

/// A product rounded up does not shrink when the count grows.
#[verifier::rlimit(40)]
pub proof fn lemma_product_up_grows(count: int, more: int, size: int, percent: int)
    requires
        0 <= count <= more,
        size >= 0,
        percent >= 1,
    ensures
        product_up(count, size, percent) <= product_up(more, size, percent),
{
    lemma_product_up_not_negative(count, size, percent);
    lemma_product_up_not_negative(more, size, percent);
    if count > 0 && size > 0 {
        let (low, high, one) = (0xff_ffffint, 0x100_0001int, 0x100_0000int);
        let (l2, h2, o2) = (low * low, high * high, one * one);
        let (l3, h3, o3) = (low * l2, high * h2, one * o2);
        power2::lemma2_to64();
        lemma_single_between(count, 1);
        lemma_single_between(more, 1);
        lemma_single_between(size, 1);
        lemma_single_between(percent, 100);
        let (c1, c2) = (single(count, 1), single(more, 1));
        let (s, k) = (single(size, 1), single(percent, 100));
        lemma_single_grows(count, 1, more, 1);
        lemma_between_times(c1, count, 1, low, high, one, s, size, 1, low, high, one);
        lemma_between_times(c2, more, 1, low, high, one, s, size, 1, low, high, one);
        let (n1, n2) = (count * size, more * size);
        assert(n1 >= 1 && n2 >= 1) by (nonlinear_arith)
            requires
                n1 == count * size,
                n2 == more * size,
                count >= 1,
                more >= 1,
                size >= 1,
        ;
        let (f1, f2) = ((c1.0 * s.0, c1.1 * s.1), (c2.0 * s.0, c2.1 * s.1));
        lemma_between_lower(f1, n1, 1, l2, h2, o2);
        lemma_between_lower(f2, n2, 1, l2, h2, o2);
        lemma_order_kept(c1, c2, s);
        lemma_single_grows(f1.0, f1.1, f2.0, f2.1);
        lemma_between_single(f1, n1, 1, l2, h2, o2);
        lemma_between_single(f2, n2, 1, l2, h2, o2);
        let (p1, p2) = (single(f1.0, f1.1), single(f2.0, f2.1));
        lemma_between_times(p1, n1, 1, l3, h3, o3, k, percent, 100, low, high, one);
        lemma_between_times(p2, n2, 1, l3, h3, o3, k, percent, 100, low, high, one);
        let (x1, x2) = (n1 * percent, n2 * percent);
        assert(x1 >= 1 && x2 >= 1) by (nonlinear_arith)
            requires
                x1 == n1 * percent,
                x2 == n2 * percent,
                n1 >= 1,
                n2 >= 1,
                percent >= 1,
        ;
        let (g1, g2) = ((p1.0 * k.0, p1.1 * k.1), (p2.0 * k.0, p2.1 * k.1));
        lemma_between_lower(g1, x1, 100, l3 * low, h3 * high, o3 * one);
        lemma_between_lower(g2, x2, 100, l3 * low, h3 * high, o3 * one);
        lemma_order_kept(p1, p2, k);
        lemma_single_grows(g1.0, g1.1, g2.0, g2.1);
        lemma_single_between(g1.0, g1.1);
        lemma_single_between(g2.0, g2.1);
        let (w1, w2) = (single(g1.0, g1.1), single(g2.0, g2.1));
        lemma_ceiling_grows(w1, w2);
    }
}

/// Fractions in order stay so when both are multiplied by one that is not negative.
proof fn lemma_order_kept(f: (int, int), g: (int, int), k: (int, int))
    requires
        f.0 * g.1 <= g.0 * f.1,
        k.0 >= 0,
        k.1 >= 0,
    ensures
        (f.0 * k.0) * (g.1 * k.1) <= (g.0 * k.0) * (f.1 * k.1),
{
    let (x, y, z) = (f.0 * g.1, g.0 * f.1, k.0 * k.1);
    lemma_pairs(f.0, k.0, g.1, k.1);
    lemma_pairs(g.0, k.0, f.1, k.1);
    assert(x * z <= y * z) by (nonlinear_arith)
        requires
            x <= y,
            z == k.0 * k.1,
            k.0 >= 0,
            k.1 >= 0,
    ;
}

proof fn lemma_ceiling_grows(f: (int, int), g: (int, int))
    requires
        f.0 * g.1 <= g.0 * f.1,
        f.1 >= 1,
        g.1 >= 1,
    ensures
        ceiling(f.0, f.1) <= ceiling(g.0, g.1),
{
    let (a, b, c, d) = (f.0, f.1, g.0, g.1);
    let (p, q) = (ceiling(a, b), ceiling(c, d));
    assert(c <= q * d) by (nonlinear_arith)
        requires
            q == (c + d - 1) / d,
            d >= 1,
    ;
    assert(p * b <= a + b - 1) by (nonlinear_arith)
        requires
            p == (a + b - 1) / b,
            b >= 1,
    ;
    if p > q {
        assert(a * d <= q * (b * d)) by (nonlinear_arith)
            requires
                a * d <= c * b,
                c <= q * d,
                b >= 1,
        {
            assert(c * b <= (q * d) * b);
        }
        assert(a <= q * b) by (nonlinear_arith)
            requires
                a * d <= q * (b * d),
                d >= 1,
        {
            assert(q * (b * d) == (q * b) * d);
        }
        assert(p * b >= q * b + b) by (nonlinear_arith)
            requires
                p >= q + 1,
                b >= 1,
        ;
    }
}

/// The places of a fraction, where they are known.
proof fn lemma_places_at(num: int, den: int, a: nat, b: nat)
    requires
        num >= 0,
        a <= b <= 64,
        num * power2::pow2(b) >= 0x80_0000 * den,
        b > 0 ==> num * power2::pow2((b - 1) as nat) < 0x80_0000 * den,
    ensures
        places(num, den, a) == b,
    decreases b - a,
{
    if a < b {
        if a < b - 1 {
            power2::lemma_pow2_strictly_increases(a, (b - 1) as nat);
        }
        assert(num * power2::pow2(a) <= num * power2::pow2((b - 1) as nat)) by (nonlinear_arith)
            requires
                power2::pow2(a) <= power2::pow2((b - 1) as nat),
                num >= 0,
        ;
        lemma_places_at(num, den, a + 1, b);
    }
}

/// A whole number that fits a significand is kept, whatever fraction it is
/// written as.
proof fn lemma_whole_kept(n: int, den: int)
    requires
        1 <= n < 0x100_0000,
        den >= 1,
    ensures
        single(n * den, den).0 == n * single(n * den, den).1,
        single(n * den, den).1 >= 1,
{
    power2::lemma2_to64();
    let num = n * den;
    assert(0 < num < 0x100_0000 * den && num >= den) by (nonlinear_arith)
        requires
            num == n * den,
            1 <= n < 0x100_0000,
            den >= 1,
    ;
    lemma_single(num, den);
    let (m, u) = single(num, den);
    assert(m == n * u) by (nonlinear_arith)
        requires
            2 * (m * den) <= 2 * (num * u) + den,
            2 * (num * u) <= 2 * (m * den) + den,
            num == n * den,
            den >= 1,
    {
        let e = m - n * u;
        assert(m * den - num * u == e * den);
        assert(-den <= 2 * (e * den) && 2 * (e * den) <= den);
        assert(e == 0);
    }
}

/// The single-precision number nearest to 0.62.
proof fn lemma_sixty_two()
    ensures
        single(62, 100) == (10_401_874int, 0x100_0000int),
{
    power2::lemma2_to64();
    lemma_places_at(62, 100, 0, 24);
}

/// What a product with 62 hundredths is rounded from: `m` over `v` is the
/// single-precision number, and `v` the power of two with exponent `a`.
spec fn sixty_two_from(p: int, m: int, v: int, a: nat) -> bool {
    &&& v == power2::pow2(a)
    &&& v >= 1
    &&& 2 * (m * 0x100_0000) <= 2 * (10_401_874 * (p * v)) + 0x100_0000
    &&& 2 * (10_401_874 * (p * v)) <= 2 * (m * 0x100_0000) + 0x100_0000
    &&& 0x80_0000 * 0x100_0000 <= 10_401_874 * (p * v)
    &&& 10_401_874 * (p * v) < 0x100_0000 * 0x100_0000
}

proof fn lemma_sixty_two_from(count: int, size: int) -> (r: (int, int, nat))
    requires
        count >= 1,
        size >= 1,
        count * size < 0x100_0000,
    ensures
        product_up(count, size, 62) == ceiling(r.0, r.1),
        sixty_two_from(count * size, r.0, r.1, r.2),
{
    power2::lemma2_to64();
    let p = count * size;
    assert(count <= p && size <= p) by (nonlinear_arith)
        requires
            p == count * size,
            count >= 1,
            size >= 1,
    ;
    lemma_whole_kept(count, 1);
    lemma_whole_kept(size, 1);
    let (c, s) = (single(count, 1), single(size, 1));
    assert(c.0 * s.0 == p * (c.1 * s.1) && c.1 * s.1 >= 1) by (nonlinear_arith)
        requires
            c.0 == count * c.1,
            s.0 == size * s.1,
            p == count * size,
            c.1 >= 1,
            s.1 >= 1,
    ;
    lemma_whole_kept(p, c.1 * s.1);
    let q = single(c.0 * s.0, c.1 * s.1);
    lemma_sixty_two();
    let u = q.1;
    let (num, den) = (q.0 * 10_401_874, q.1 * 0x100_0000);
    let pu = p * u;
    assert(u <= pu < 0x100_0000 * u) by (nonlinear_arith)
        requires
            pu == p * u,
            1 <= p < 0x100_0000,
            u >= 1,
    ;
    lemma_single(num, den);
    let a = places(num, den, 0);
    lemma_places(num, den, 0);
    let (m, v) = single(num, den);
    let n = p * 10_401_874;
    assert(num == n * u) by (nonlinear_arith)
        requires
            num == p * u * 10_401_874,
            n == p * 10_401_874,
    ;
    // The common factor of the fraction drops out.
    assert(2 * (m * 0x100_0000) <= 2 * (n * v) + 0x100_0000 && 2 * (n * v) <= 2 * (m * 0x100_0000)
        + 0x100_0000 && n * v >= 0x80_0000 * 0x100_0000 && n * v < 0x100_0000 * 0x100_0000)
        by (nonlinear_arith)
        requires
            2 * (m * den) <= 2 * (num * v) + den,
            2 * (num * v) <= 2 * (m * den) + den,
            num * v >= 0x80_0000 * den,
            num * v < 0x100_0000 * den,
            num == n * u,
            den == u * 0x100_0000,
            u >= 1,
    {
        assert(num * v == u * (n * v));
        assert(m * den == u * (m * 0x100_0000));
    }
    assert(n * v == 10_401_874 * (p * v)) by (nonlinear_arith)
        requires
            n == p * 10_401_874,
    ;
    (m, v, a)
}

/// What a rounded-up product with 62 hundredths falls short of the exact one by, in
/// fiftieths, is less than its rounding allows.
proof fn lemma_shortfall(p: int, m: int, v: int, a: nat, w: int)
    requires
        sixty_two_from(p, m, v, a),
        w == ceiling(m, v),
    ensures
        (50 * w - 31 * p) * v >= -21,
{
    let (pv, wv) = (p * v, w * v);
    assert(m <= wv) by (nonlinear_arith)
        requires
            w == (m + v - 1) / v,
            wv == w * v,
            v >= 1,
    ;
    assert((50 * w - 31 * p) * v == 50 * wv - 31 * pv) by (nonlinear_arith)
        requires
            pv == p * v,
            wv == w * v,
    ;
}

/// A rounded-up product with 62 hundredths that passes a whole number passes it by
/// more than its rounding adds.
proof fn lemma_surplus(p: int, m: int, v: int, a: nat, w: int)
    requires
        sixty_two_from(p, m, v, a),
        ceiling(m, v) > w,
    ensures
        (50 * w - 31 * p) * v <= -19,
{
    let (pv, wv) = (p * v, w * v);
    assert(m >= wv + 1) by (nonlinear_arith)
        requires
            (m + v - 1) / v > w,
            wv == w * v,
            v >= 1,
    ;
    assert((50 * w - 31 * p) * v == 50 * wv - 31 * pv) by (nonlinear_arith)
        requires
            pv == p * v,
            wv == w * v,
    ;
}

/// Of two products the larger has no more binary places, and fewer where it is at
/// least twice the other.
proof fn lemma_fewer_places(p: int, m: int, v: int, a: nat, q: int, n: int, u: int, b: nat)
    requires
        sixty_two_from(p, m, v, a),
        sixty_two_from(q, n, u, b),
        1 <= p <= q,
    ensures
        u == v || 2 * u <= v,
        q >= 2 * p ==> 2 * u == v || 4 * u <= v,
{
    assert(u < 2 * v) by (nonlinear_arith)
        requires
            0x80_0000 * 0x100_0000 <= 10_401_874 * (p * v),
            10_401_874 * (q * u) < 0x100_0000 * 0x100_0000,
            1 <= p <= q,
            v >= 1,
    {
        assert(p * v <= q * v);
        assert(q * u < 2 * (q * v));
    }
    if q >= 2 * p {
        assert(u < v) by (nonlinear_arith)
            requires
                0x80_0000 * 0x100_0000 <= 10_401_874 * (p * v),
                10_401_874 * (q * u) < 0x100_0000 * 0x100_0000,
                q >= 2 * p,
                p >= 1,
                v >= 1,
        {
            assert(2 * (p * v) <= q * v);
            assert(q * u < q * v);
        }
    }
    if b > a {
        power2::lemma_pow2_unfold(a + 1);
        if b > a + 1 {
            power2::lemma_pow2_strictly_increases(a + 1, b);
        }
        assert(false);
    } else if b < a {
        power2::lemma_pow2_unfold(b + 1);
        power2::lemma_pow2_unfold(b + 2);
        if b + 1 < a {
            power2::lemma_pow2_strictly_increases(b + 1, a);
            if b + 2 < a {
                power2::lemma_pow2_strictly_increases(b + 2, a);
            }
        }
    }
}

/// A unit of at least eight divides by eight.
proof fn lemma_eighths(v: int, a: nat) -> (w: int)
    requires
        v == power2::pow2(a),
        v > 4,
    ensures
        v == 8 * w,
        w >= 1,
{
    power2::lemma2_to64();
    if a < 2 {
        power2::lemma_pow2_strictly_increases(a, 2);
        assert(false);
    }
    assert(a >= 3);
    power2::lemma_pow2_unfold(a);
    power2::lemma_pow2_unfold((a - 1) as nat);
    power2::lemma_pow2_unfold((a - 2) as nat);
    power2::lemma_pow2_pos((a - 3) as nat);
    power2::pow2((a - 3) as nat) as int
}

/// Up to this size, a product with 62 hundredths is not rounded below the exact one.
proof fn lemma_not_short(s: int, m: int, v: int, a: nat, w: int)
    requires
        sixty_two_from(s, m, v, a),
        w == ceiling(m, v),
        1 <= s <= 845_670,
    ensures
        50 * w - 31 * s >= 0,
{
    lemma_shortfall(s, m, v, a, w);
    let y = 50 * w - 31 * s;
    assert(v > 8) by (nonlinear_arith)
        requires
            0x80_0000 * 0x100_0000 <= 10_401_874 * (s * v),
            1 <= s <= 845_670,
    ;
    let e = lemma_eighths(v, a);
    assert(v >= 16);
    assert(y >= -1) by (nonlinear_arith)
        requires
            y * v >= -21,
            v >= 16,
    ;
    if y == -1 {
        assert(31 * s == 50 * w + 1);
        assert(s % 50 == 21);
        assert(s <= 845_621);
        assert(v > 16) by (nonlinear_arith)
            requires
                0x80_0000 * 0x100_0000 <= 10_401_874 * (s * v),
                1 <= s <= 845_621,
        ;
        assert(y * v == -v) by (nonlinear_arith)
            requires
                y == -1,
        ;
    }
}

/// The product for the sum of two sizes, the one a multiple of the other, is no
/// larger than the sum of their products.
proof fn lemma_sum_not_passed(
    p: int,
    fp: (int, int, nat),
    s: int,
    fs: (int, int, nat),
    t: int,
    ft: (int, int, nat),
)
    requires
        sixty_two_from(p, fp.0, fp.1, fp.2),
        sixty_two_from(s, fs.0, fs.1, fs.2),
        sixty_two_from(t, ft.0, ft.1, ft.2),
        t == p + s,
        1 <= s <= p,
        t <= 2_600_000,
        p == s && fp == fs || s <= 845_670,
    ensures
        ceiling(ft.0, ft.1) <= ceiling(fp.0, fp.1) + ceiling(fs.0, fs.1),
{
    let (wp, ws) = (ceiling(fp.0, fp.1), ceiling(fs.0, fs.1));
    let (x, y) = (50 * wp - 31 * p, 50 * ws - 31 * s);
    let (vp, vt) = (fp.1, ft.1);
    lemma_shortfall(p, fp.0, fp.1, fp.2, wp);
    if ceiling(ft.0, ft.1) > wp + ws {
        lemma_surplus(t, ft.0, ft.1, ft.2, wp + ws);
        assert((x + y) * vt <= -19) by {
            assert(50 * (wp + ws) - 31 * t == x + y);
        }
        assert(vt > 4) by (nonlinear_arith)
            requires
                0x80_0000 * 0x100_0000 <= 10_401_874 * (t * vt),
                1 <= t <= 2_600_000,
        ;
        let w8 = lemma_eighths(vt, ft.2);
        lemma_fewer_places(p, fp.0, fp.1, fp.2, t, ft.0, ft.1, ft.2);
        if p == s && fp == fs {
            lemma_no_room(x, 2 * vt, 2 * w8, vp);
            assert((x + y) * vt == x * (2 * vt)) by (nonlinear_arith)
                requires
                    x == y,
            ;
        } else {
            lemma_not_short(s, fs.0, fs.1, fs.2, ws);
            assert(x * vt <= -19) by (nonlinear_arith)
                requires
                    (x + y) * vt <= -19,
                    y >= 0,
                    vt >= 1,
            ;
            lemma_no_room(x, vt, w8, vp);
        }
    }
}

/// With 62 hundredths, the product for one more is no larger than the product for
/// the others and the product for one, as long as these are below 1572948 together.
/// With size 845671 they are that, for two and for one, and the product for three is
/// larger.
#[verifier::rlimit(40)]
pub proof fn lemma_product_up_subadditive(count: int, size: int)
    requires
        count >= 0,
        size >= 0,
        product_up(count, size, 62) + product_up(1, size, 62) < 1_572_948,
    ensures
        product_up(count + 1, size, 62) <= product_up(count, size, 62) + product_up(1, size, 62),
{
    lemma_product_up_not_negative(count, size, 62);
    lemma_product_up_not_negative(1, size, 62);
    lemma_product_up_not_negative(count + 1, size, 62);
    if count >= 1 && size >= 1 {
        let (p, t) = (count * size, (count + 1) * size);
        assert(1 * size == size && t == p + size && p >= size) by (nonlinear_arith)
            requires
                p == count * size,
                t == (count + 1) * size,
                count >= 1,
                size >= 1,
        ;
        assert(t <= 2_537_012) by {
            lemma_product_up_low(count, size, 62);
            lemma_product_up_low(1, size, 62);
        }
        let fs = lemma_sixty_two_from(1, size);
        let fp = if count == 1 {
            fs
        } else {
            lemma_sixty_two_from(count, size)
        };
        let ft = lemma_sixty_two_from(count + 1, size);
        assert(count == 1 || size <= 845_670) by {
            if count >= 2 {
                assert(3 * size <= t) by (nonlinear_arith)
                    requires
                        t == (count + 1) * size,
                        count >= 2,
                        size >= 1,
                ;
            }
        }
        lemma_sum_not_passed(p, fp, size, fs, t, ft);
    }
}

/// What falls short by less than one rounding allows does not by more than another
/// allows that is as coarse or coarser.
proof fn lemma_no_room(x: int, u: int, w: int, v: int)
    requires
        x * v >= -21,
        u == 8 * w,
        u >= 1,
        u == v || 2 * u <= v,
    ensures
        x * u > -19,
{
    if u == v {
        assert(x * u == 8 * (x * w)) by (nonlinear_arith)
            requires
                u == 8 * w,
        ;
    } else if x < 0 {
        assert(x * v <= 2 * (x * u)) by (nonlinear_arith)
            requires
                2 * u <= v,
                x < 0,
        ;
    } else {
        assert(x * u >= 0) by (nonlinear_arith)
            requires
                x >= 0,
                u >= 1,
        ;
    }
}

/// The magnitude of a finite number, as a fraction.
pub open spec fn magnitude(x: Binary32) -> (int, int) {
    if x.scale() >= 0 {
        ((x.significand() * power2::pow2(x.scale() as nat)) as int, 1)
    } else {
        (x.significand() as int, power2::pow2((-x.scale()) as nat) as int)
    }
}

/// A whole number over a number, computed in single precision and rounded to a
/// whole number.
pub open spec fn rounded_ratio(n: int, x: Binary32) -> int {
    if x.is_infinite() {
        0
    } else {
        let f = single(n, 1);
        let d = magnitude(x);
        let q = single(f.0 * d.1, f.1 * d.0);
        half_up(q.0, q.1)
    }
}

/// Rounding a fraction near to another to a whole number leaves it within a half, and
/// as much as the fractions were apart.
proof fn lemma_whole_near(n: int, a: int, m: int, u: int, r: int)
    requires
        u >= 1,
        a >= 1,
        r == half_up(m, u),
        0x1f_ffff * (n * u) <= 0x20_0000 * (m * a),
        0x20_0000 * (m * a) <= 0x20_0001 * (n * u),
    ensures
        0x20_0000 * (2 * (r * a)) <= 0x20_0001 * (2 * n) + 0x20_0000 * a,
        0x1f_ffff * (2 * n) <= 0x20_0000 * (2 * (r * a)) + 0x20_0000 * a,
{
    assert(2 * (u * r) <= 2 * m + u && 2 * m <= 2 * (u * r) + u) by (nonlinear_arith)
        requires
            r == (2 * m + u) / (2 * u),
            u > 0,
    ;
    let (nu, ma, ura, ua) = (n * u, m * a, (u * r) * a, u * a);
    assert(2 * ura <= 2 * ma + ua && 2 * ma <= 2 * ura + ua) by (nonlinear_arith)
        requires
            2 * (u * r) <= 2 * m + u,
            2 * m <= 2 * (u * r) + u,
            a >= 1,
            ma == m * a,
            ura == (u * r) * a,
            ua == u * a,
    ;
    let top = 0x20_0001 * (2 * n) + 0x20_0000 * a - 0x20_0000 * (2 * (r * a));
    let bottom = 0x20_0000 * (2 * (r * a)) + 0x20_0000 * a - 0x1f_ffff * (2 * n);
    assert(top * u == 0x40_0002 * nu + 0x20_0000 * ua - 0x40_0000 * ura) by (nonlinear_arith)
        requires
            nu == n * u,
            ura == (u * r) * a,
            ua == u * a,
            top == 0x20_0001 * (2 * n) + 0x20_0000 * a - 0x20_0000 * (2 * (r * a)),
    ;
    assert(bottom * u == 0x40_0000 * ura + 0x20_0000 * ua - 0x3f_fffe * nu) by (nonlinear_arith)
        requires
            nu == n * u,
            ura == (u * r) * a,
            ua == u * a,
            bottom == 0x20_0000 * (2 * (r * a)) + 0x20_0000 * a - 0x1f_ffff * (2 * n),
    ;
    assert(top >= 0) by (nonlinear_arith)
        requires
            top * u >= 0,
            u >= 1,
    ;
    assert(bottom >= 0) by (nonlinear_arith)
        requires
            bottom * u >= 0,
            u >= 1,
    ;
}

/// A ratio of at least one is rounded to a whole number within a half, and one part in
/// two to the power of 21.
pub proof fn lemma_ratio_near(n: int, x: Binary32)
    requires
        n >= 1,
        !x.is_infinite(),
        1 <= magnitude(x).0 <= n * magnitude(x).1,
    ensures
        ({
            let (a, b) = magnitude(x);
            let r = rounded_ratio(n, x);
            &&& 0x20_0000 * (2 * (r * a)) <= 0x20_0001 * (2 * (n * b)) + 0x20_0000 * a
            &&& 0x1f_ffff * (2 * (n * b)) <= 0x20_0000 * (2 * (r * a)) + 0x20_0000 * a
        }),
{
    let (low, high, one) = (0xff_ffffint, 0x100_0001int, 0x100_0000int);
    power2::lemma2_to64();
    lemma_single_between(n, 1);
    let f = single(n, 1);
    let (a, b) = magnitude(x);
    assert(b >= 1) by {
        if x.scale() < 0 {
            power2::lemma_pow2_pos((-x.scale()) as nat);
        }
    }
    lemma_between_times(f, n, 1, low, high, one, (b, a), b, a, 1, 1, 1);
    let (g, nb) = ((f.0 * b, f.1 * a), n * b);
    assert(1 * a == a && low * 1 == low && high * 1 == high && one * 1 == one);
    assert(between(g, nb, a, low, high, one));
    assert(g.1 <= 2 * g.0) by (nonlinear_arith)
        requires
            low * (nb * g.1) <= one * (g.0 * a),
            low == 0xff_ffff,
            one == 0x100_0000,
            1 <= a <= nb,
            g.1 >= 1,
    {
        assert(a * g.1 <= nb * g.1);
        assert(low * (a * g.1) <= one * (g.0 * a));
        assert(a * (low * g.1) <= a * (one * g.0));
        assert(low * g.1 <= one * g.0);
    }
    lemma_between_single(g, nb, a, low, high, one);
    let (m, u) = single(g.0, g.1);
    let (p, q) = (nb * u, m * a);
    assert(0x1f_ffff * p <= 0x20_0000 * q && 0x20_0000 * q <= 0x20_0001 * p) by {
        assert((low * low) * p <= (one * one) * q && (one * one) * q <= (high * high) * p);
        assert(p >= 0) by (nonlinear_arith)
            requires
                p == nb * u,
                nb >= 1,
                u >= 1,
        ;
    }
    lemma_whole_near(nb, a, m, u, half_up(m, u));
}

/// The bits of one tenth.
pub const TENTH_BITS: u32 = 0x3dcc_cccd;

/// A quarter or less rounds to nothing.
proof fn lemma_small_fraction(num: int, den: int)
    requires
        0 <= num,
        0 < den,
        4 * num <= den,
    ensures
        half_up(single(num, den).0, single(num, den).1) == 0,
{
    if num > 0 {
        let a = places(num, den, 0);
        let u = power2::pow2(a) as int;
        power2::lemma2_to64();
        power2::lemma2_to64_rest();
        lemma_places_many(num, den, 0);
        power2::lemma_pow2_pos(a);
        if a > 2 {
            power2::lemma_pow2_strictly_increases(2, a);
        }
        assert(num * u >= 0) by (nonlinear_arith)
            requires
                num > 0,
                u > 0,
        ;
        lemma_half_even(num * u, den);
        let m = half_even(num * u, den);
        assert(4 * m <= u + 2) by (nonlinear_arith)
            requires
                2 * (m * den) <= 2 * (num * u) + den,
                4 * num <= den,
                den > 0,
                u > 0,
        ;
        assert((2 * m + u) / (2 * u) == 0) by (nonlinear_arith)
            requires
                0 <= m,
                4 * m <= u + 2,
                u >= 4,
        ;
    } else {
        assert((2 * 0int + 1int) / (2 * 1int) == 0) by (nonlinear_arith);
    }
}

proof fn lemma_places_many(num: int, den: int, a: nat)
    requires
        0 < num,
        4 * num <= den,
        a <= 2,
    ensures
        places(num, den, a) >= 2,
    decreases 2 - a,
{
    power2::lemma2_to64();
    if a < 2 {
        assert(num * power2::pow2(a) < 0x80_0000 * den) by (nonlinear_arith)
            requires
                power2::pow2(a) <= 2,
                0 < num,
                4 * num <= den,
        ;
        lemma_places_many(num, den, a + 1);
    } else {
        lemma_places_grow(num, den, a);
    }
}

proof fn lemma_places_grow(num: int, den: int, a: nat)
    ensures
        places(num, den, a) >= a,
    decreases 64 - a,
{
    if a < 64 && num * power2::pow2(a) < 0x80_0000 * den {
        lemma_places_grow(num, den, a + 1);
    }
}

/// Divide a whole number by a number of at least one tenth.
pub fn round_ratio(n: u32, x: Binary32) -> (r: u64)
    requires
        TENTH_BITS <= x.bits <= 0x7f80_0000,
    ensures
        r == rounded_ratio(n as int, x),
{
    let exponent: u32 = x.bits / 0x80_0000;
    let fraction: u32 = x.bits % 0x80_0000;
    if exponent == 255 {
        return 0;
    }
    let f: (u128, u128) = to_single(n as u128, 1);
    let significand: u128 = 0x80_0000 + fraction as u128;
    proof {
        assert(x.exponent() == exponent && x.fraction() == fraction);
        assert(x.significand() == significand);
        assert(exponent >= 123);
        assert(f.1 <= 0x100_0000) by (nonlinear_arith)
            requires
                f.1 == 1 || f.1 * n < 0x100_0000,
                f.1 == 1 || n >= 1,
        ;
        power2::lemma2_to64();
    }
    if exponent > 180 {
        proof {
            let d = magnitude(x);
            let up = x.scale() as nat;
            power2::lemma_pow2_strictly_increases(30, up);
            power2::lemma2_to64_rest();
            if up > 31 {
                power2::lemma_pow2_strictly_increases(31, up);
            }
            assert(d.0 >= 0x80_0000 * 0x8000_0000) by (nonlinear_arith)
                requires
                    d.0 == significand * power2::pow2(up),
                    significand >= 0x80_0000,
                    power2::pow2(up) >= 0x8000_0000,
            ;
            assert(4 * (f.0 * 1) <= f.1 * d.0 && f.1 * d.0 > 0) by (nonlinear_arith)
                requires
                    f.1 >= 1,
                    f.0 <= 0x2_0000_0000,
                    d.0 >= 0x80_0000 * 0x8000_0000,
            ;
            lemma_small_fraction(f.0 * d.1, f.1 * d.0);
        }
        return 0;
    }
    let (rn, rd): (u128, u128) = if exponent >= 150 {
        let unit: u128 = power_of_two(exponent - 150) as u128;
        proof {
            if exponent - 150 < 30 {
                power2::lemma_pow2_strictly_increases((exponent - 150) as nat, 30);
            }
            assert(0 < significand * unit <= 0x100_0000 * 0x4000_0000) by (nonlinear_arith)
                requires
                    0 < significand <= 0x100_0000,
                    0 < unit <= 0x4000_0000,
            ;
        }
        (significand * unit, 1)
    } else {
        let unit: u128 = power_of_two(150 - exponent) as u128;
        proof {
            if 150 - exponent < 27 {
                power2::lemma_pow2_strictly_increases((150 - exponent) as nat, 27);
            }
        }
        (significand, unit)
    };
    proof {
        assert((rn as int, rd as int) == magnitude(x));
        assert(f.0 * rd <= 0x2_0000_0000 * 0x800_0000) by (nonlinear_arith)
            requires
                0 <= f.0 <= 0x2_0000_0000,
                0 <= rd <= 0x800_0000,
        ;
        assert(0 < f.1 * rn <= 0x100_0000 * (0x100_0000 * 0x4000_0000)) by (nonlinear_arith)
            requires
                0 < f.1 <= 0x100_0000,
                0 < rn <= 0x100_0000 * 0x4000_0000,
        ;
    }
    let q: (u128, u128) = to_single(f.0 * rd, f.1 * rn);
    proof {
        assert((2 * q.0 + q.1) / (2 * q.1) <= q.0 + 1) by (nonlinear_arith)
            requires
                q.0 >= 0,
                q.1 >= 1,
        ;
    }
    ((2 * q.0 + q.1) / (2 * q.1)) as u64
}

/// A double-precision number, by its bits.
#[derive(Debug, Clone, Copy, PartialEq, Eq, Structural)]
pub struct Binary64 {
    pub bits: u64,
}

/// The bits of one.
pub const ONE_BITS: u64 = 0x3ff0_0000_0000_0000;

impl Binary64 {
    pub open spec fn sign_set(self) -> bool {
        self.bits >= 0x8000_0000_0000_0000
    }

    pub open spec fn magnitude_bits(self) -> int {
        self.bits as int % 0x8000_0000_0000_0000
    }

    pub open spec fn finite(self) -> bool {
        self.magnitude_bits() < 0x7ff0_0000_0000_0000
    }

    /// Zero, of either sign.
    pub open spec fn zero(self) -> bool {
        self.magnitude_bits() == 0
    }

    /// At most one machine epsilon away from one. Neighbours lie an epsilon
    /// apart above one, and half an epsilon apart below it.
    pub open spec fn about_one(self) -> bool {
        ONE_BITS - 2 <= self.bits <= ONE_BITS + 1
    }
}

} // verus!
