use vstd::prelude::*;

verus! {

/// Raw value of the scalar one: a scalar with raw value `r` stands for `r / 65536`.
pub const ONE: i64 = 65536;

/// Raw value of one half, the offset used when rounding to an integer.
pub const HALF: i64 = 32768;

/// The value nearest to `v` that a 64-bit raw scalar can hold.
pub open spec fn saturate(v: int) -> int {
    if v < i64::MIN as int {
        i64::MIN as int
    } else if v > i64::MAX as int {
        i64::MAX as int
    } else {
        v
    }
}

/// Division that rounds toward zero.
pub open spec fn quotient(a: int, b: int) -> int
    recommends
        b != 0,
{
    if a >= 0 {
        if b > 0 {
            a / b
        } else {
            -(a / (-b))
        }
    } else {
        if b > 0 {
            -((-a) / b)
        } else {
            (-a) / (-b)
        }
    }
}

/// Product of two raw scalars, rescaled and not yet saturated.
pub open spec fn scaled_product(a: int, b: int) -> int {
    quotient(a * b, ONE as int)
}

/// The integer nearest to a raw scalar, halves rounded away from zero.
pub open spec fn nearest_integer(a: int) -> int {
    if a >= 0 {
        (a + HALF) / (ONE as int)
    } else {
        -((-a + HALF) / (ONE as int))
    }
}

/// `r` is the integer square root of `n`.
pub open spec fn is_root(n: int, r: int) -> bool {
    0 <= r && r * r <= n < (r + 1) * (r + 1)
}

/// The integer square root of `n`: the largest `r` with `r * r <= n`.
pub open spec fn root(n: int) -> int {
    choose|r: int| is_root(n, r)
}

/// A number has at most one integer square root.
pub proof fn lemma_root_unique(n: int, r: int, s: int)
    requires
        is_root(n, r),
        is_root(n, s),
    ensures
        r == s,
{
    if r < s {
        assert((r + 1) * (r + 1) <= s * s) by (nonlinear_arith)
            requires
                0 <= r,
                r + 1 <= s,
        ;
    } else if s < r {
        assert((s + 1) * (s + 1) <= r * r) by (nonlinear_arith)
            requires
                0 <= s,
                s + 1 <= r,
        ;
    }
}

/// Every number that is not negative has an integer square root.
pub proof fn lemma_root_exists(n: int)
    requires
        n >= 0,
    ensures
        is_root(n, root(n)),
    decreases n,
{
    if n == 0 {
        assert(is_root(0, 0));
    } else {
        lemma_root_exists(n - 1);
        let r = root(n - 1);
        if (r + 1) * (r + 1) <= n {
            assert((r + 1) * (r + 1) == n);
            assert(n < (r + 2) * (r + 2)) by (nonlinear_arith)
                requires
                    (r + 1) * (r + 1) == n,
                    r >= 0,
            ;
            assert(is_root(n, r + 1));
        } else {
            assert(is_root(n, r));
        }
    }
}

/// The quotient is no larger in magnitude than the dividend and has its sign.
pub proof fn lemma_quotient_bounds(a: int, b: int)
    requires
        b != 0,
    ensures
        a >= 0 && b > 0 ==> 0 <= quotient(a, b) <= a,
        a >= 0 && b < 0 ==> -a <= quotient(a, b) <= 0,
        a <= 0 && b > 0 ==> a <= quotient(a, b) <= 0,
        a <= 0 && b < 0 ==> 0 <= quotient(a, b) <= -a,
{
    let m = if a >= 0 { a } else { -a };
    let d = if b > 0 { b } else { -b };
    assert(0 <= m / d <= m) by (nonlinear_arith)
        requires
            m >= 0,
            d > 0,
    ;
}

/// Multiplying a quotient back by a positive divisor does not pass the dividend.
pub proof fn lemma_quotient_times_divisor(a: int, b: int)
    requires
        b > 0,
    ensures
        a >= 0 ==> 0 <= quotient(a, b) * b <= a,
        a <= 0 ==> a <= quotient(a, b) * b <= 0,
{
    let m = if a >= 0 { a } else { -a };
    assert(0 <= (m / b) * b <= m) by (nonlinear_arith)
        requires
            m >= 0,
            b > 0,
    ;
    if a < 0 {
        assert((-(m / b)) * b == -((m / b) * b)) by (nonlinear_arith);
    }
}

/// Dividing an exact multiple gives the multiplier back.
pub proof fn lemma_quotient_of_multiple(a: int, b: int)
    requires
        b > 0,
    ensures
        quotient(a * b, b) == a,
{
    if a >= 0 {
        assert(a * b >= 0 && (a * b) / b == a) by (nonlinear_arith)
            requires
                a >= 0,
                b > 0,
        ;
    } else {
        assert(a * b < 0 && -(a * b) == (-a) * b && ((-a) * b) / b == -a) by (nonlinear_arith)
            requires
                a < 0,
                b > 0,
        ;
    }
}

/// A fixed-point scalar with sixteen fractional bits and saturating arithmetic.
#[derive(Clone, Copy, Debug, PartialEq, Eq, Structural)]
pub struct Fixed {
    pub raw: i64,
}

impl View for Fixed {
    type V = int;

    open spec fn view(&self) -> int {
        self.raw as int
    }
}

/// Narrows a wide intermediate to a scalar, saturating at the ends of the range.
pub fn narrow(v: i128) -> (r: Fixed)
    ensures
        r@ == saturate(v as int),
{
    if v < i64::MIN as i128 {
        Fixed { raw: i64::MIN }
    } else if v > i64::MAX as i128 {
        Fixed { raw: i64::MAX }
    } else {
        Fixed { raw: v as i64 }
    }
}

/// Division of wide intermediates, rounding toward zero.
fn divide_wide(a: i128, b: i128) -> (r: i128)
    requires
        b != 0,
        a > i128::MIN,
        b > i128::MIN,
    ensures
        r == quotient(a as int, b as int),
{
    if a >= 0 {
        if b > 0 {
            a / b
        } else {
            -(a / (-b))
        }
    } else {
        if b > 0 {
            -((-a) / b)
        } else {
            (-a) / (-b)
        }
    }
}

/// The rescaled product of two scalars as a wide intermediate.
pub fn wide_product(a: Fixed, b: Fixed) -> (r: i128)
    ensures
        r == scaled_product(a@, b@),
        -0x4000_0000_0000_0000_0000_0000_0000 <= r <= 0x4000_0000_0000_0000_0000_0000_0000,
{
    let x: i128 = a.raw as i128;
    let y: i128 = b.raw as i128;
    assert(-0x4000_0000_0000_0000_0000_0000_0000_0000 <= x * y
        <= 0x4000_0000_0000_0000_0000_0000_0000_0000) by (nonlinear_arith)
        requires
            -0x8000_0000_0000_0000 <= x <= 0x8000_0000_0000_0000,
            -0x8000_0000_0000_0000 <= y <= 0x8000_0000_0000_0000,
    ;
    let p: i128 = x * y;
    divide_wide(p, ONE as i128)
}

/// The integer square root of `n`.
pub fn integer_sqrt(n: u128) -> (r: u64)
    ensures
        is_root(n as int, r as int),
        r == root(n as int),
{
    let mut lo: u128 = 0;
    let mut hi: u128 = 0x1_0000_0000_0000_0000;
    assert(hi * hi > n) by (nonlinear_arith)
        requires
            hi == 0x1_0000_0000_0000_0000,
            n <= 0xffff_ffff_ffff_ffff_ffff_ffff_ffff_ffff,
    ;
    while hi - lo > 1
        invariant
            lo < hi <= 0x1_0000_0000_0000_0000,
            lo * lo <= n < hi * hi,
        decreases hi - lo,
    {
        let mid: u128 = lo + (hi - lo) / 2;
        assert(mid * mid <= 0xffff_ffff_ffff_ffff * 0xffff_ffff_ffff_ffff) by (nonlinear_arith)
            requires
                0 <= mid <= 0xffff_ffff_ffff_ffff,
        ;
        if mid * mid <= n {
            lo = mid;
        } else {
            hi = mid;
        }
    }
    proof {
        assert(hi == lo + 1);
        assert(is_root(n as int, lo as int));
        lemma_root_unique(n as int, lo as int, root(n as int));
    }
    lo as u64
}

impl Fixed {
    /// The scalar with the given raw value.
    pub fn from_raw(raw: i64) -> (r: Fixed)
        ensures
            r.raw == raw,
    {
        Fixed { raw }
    }

    /// The scalar that stands for the integer `v`.
    pub fn from_int(v: i32) -> (r: Fixed)
        ensures
            r@ == v * ONE,
    {
        Fixed { raw: (v as i64) * ONE }
    }

    /// The scalar zero.
    pub fn zero() -> (r: Fixed)
        ensures
            r@ == 0,
    {
        Fixed { raw: 0 }
    }

    /// The scalar one.
    pub fn one() -> (r: Fixed)
        ensures
            r@ == ONE,
    {
        Fixed { raw: ONE }
    }

    /// Saturating sum.
    pub fn plus(self, other: Fixed) -> (r: Fixed)
        ensures
            r@ == saturate(self@ + other@),
    {
        narrow(self.raw as i128 + other.raw as i128)
    }

    /// Saturating difference.
    pub fn minus(self, other: Fixed) -> (r: Fixed)
        ensures
            r@ == saturate(self@ - other@),
    {
        narrow(self.raw as i128 - other.raw as i128)
    }

    /// Saturating negation.
    pub fn neg(self) -> (r: Fixed)
        ensures
            r@ == saturate(-self@),
    {
        narrow(-(self.raw as i128))
    }

    /// Saturating product of two scalars.
    pub fn times(self, other: Fixed) -> (r: Fixed)
        ensures
            r@ == saturate(scaled_product(self@, other@)),
    {
        narrow(wide_product(self, other))
    }

    /// Saturating quotient of two scalars, rounded toward zero.
    pub fn over(self, other: Fixed) -> (r: Fixed)
        requires
            other@ != 0,
        ensures
            r@ == saturate(quotient(self@ * ONE, other@)),
    {
        let x: i128 = self.raw as i128;
        let n: i128 = x * 65536;
        assert(n == self@ * ONE);
        narrow(divide_wide(n, other.raw as i128))
    }

    /// Saturating product with an integer.
    pub fn times_int(self, n: i64) -> (r: Fixed)
        ensures
            r@ == saturate(self@ * n),
    {
        let x: i128 = self.raw as i128;
        let y: i128 = n as i128;
        assert(-0x4000_0000_0000_0000_0000_0000_0000_0000 <= x * y
            <= 0x4000_0000_0000_0000_0000_0000_0000_0000) by (nonlinear_arith)
            requires
                -0x8000_0000_0000_0000 <= x <= 0x8000_0000_0000_0000,
                -0x8000_0000_0000_0000 <= y <= 0x8000_0000_0000_0000,
        ;
        narrow(x * y)
    }

    /// Saturating quotient by an integer, rounded toward zero.
    pub fn over_int(self, n: i64) -> (r: Fixed)
        requires
            n != 0,
        ensures
            r@ == saturate(quotient(self@, n as int)),
    {
        narrow(divide_wide(self.raw as i128, n as i128))
    }

    /// The scalar times `num / den`, rounded toward zero and saturated.
    pub fn ratio(self, num: i64, den: i64) -> (r: Fixed)
        requires
            den != 0,
        ensures
            r@ == saturate(quotient(self@ * num, den as int)),
    {
        let x: i128 = self.raw as i128;
        let y: i128 = num as i128;
        assert(-0x4000_0000_0000_0000_0000_0000_0000_0000 <= x * y
            <= 0x4000_0000_0000_0000_0000_0000_0000_0000) by (nonlinear_arith)
            requires
                -0x8000_0000_0000_0000 <= x <= 0x8000_0000_0000_0000,
                -0x8000_0000_0000_0000 <= y <= 0x8000_0000_0000_0000,
        ;
        narrow(divide_wide(x * y, den as i128))
    }

    /// The nearest integer, halves rounded away from zero.
    pub fn round(self) -> (r: i64)
        ensures
            r == nearest_integer(self@),
    {
        let x: i128 = self.raw as i128;
        if x >= 0 {
            ((x + HALF as i128) / (ONE as i128)) as i64
        } else {
            (-((-x + HALF as i128) / (ONE as i128))) as i64
        }
    }
}

} // verus!
