use vstd::prelude::*;

verus! {

/// `root` is the integer square root of `n`: the greatest integer whose
/// square does not exceed `n`.
pub open spec fn is_integer_sqrt(n: int, root: int) -> bool {
    0 <= root && root * root <= n < (root + 1) * (root + 1)
}

/// The integer square root of `n`, for `n` that is not negative.
pub open spec fn integer_sqrt(n: int) -> int {
    choose|root: int| is_integer_sqrt(n, root)
}

/// Squaring keeps the order of integers that are not negative.
proof fn lemma_square_monotonic(a: int, b: int)
    requires
        0 <= a <= b,
    ensures
        a * a <= b * b,
{
    assert(a * a <= b * b) by (nonlinear_arith)
        requires
            0 <= a <= b,
    ;
}

/// A number has one integer square root only.
pub proof fn lemma_integer_sqrt_unique(n: int, root: int)
    requires
        is_integer_sqrt(n, root),
    ensures
        integer_sqrt(n) == root,
{
    let other = integer_sqrt(n);
    assert(is_integer_sqrt(n, other));
    if other < root {
        lemma_square_monotonic(other + 1, root);
    } else if root < other {
        lemma_square_monotonic(root + 1, other);
    }
}

/// Computes the integer square root by bisection.
pub fn isqrt(n: u64) -> (root: u64)
    ensures
        is_integer_sqrt(n as int, root as int),
        root == integer_sqrt(n as int),
        root < 0x1_0000_0000,
{
    let mut low: u64 = 0;
    let mut high: u64 = 0x1_0000_0000;
    assert(0x1_0000_0000int * 0x1_0000_0000int > u64::MAX);
    while high - low > 1
        invariant
            low < high <= 0x1_0000_0000,
            low * low <= n,
            n < high * high,
        decreases high - low,
    {
        let mid: u64 = low + (high - low) / 2;
        assert(mid * mid <= 0xffff_ffff * 0xffff_ffff) by (nonlinear_arith)
            requires
                0 <= mid <= 0xffff_ffff,
        ;
        if mid * mid <= n {
            low = mid;
        } else {
            high = mid;
        }
    }
    proof {
        lemma_integer_sqrt_unique(n as int, low as int);
    }
    low
}

/// The quotient of `a` by a positive `b`, rounded toward zero.
pub open spec fn trunc_div(a: int, b: int) -> int {
    if a >= 0 {
        a / b
    } else {
        -((-a) / b)
    }
}

/// Divides `a` by a positive `b` and rounds toward zero.
pub fn div_toward_zero(a: i64, b: i64) -> (q: i64)
    requires
        b > 0,
        a > i64::MIN,
    ensures
        q == trunc_div(a as int, b as int),
        a >= 0 ==> 0 <= q <= a,
        a < 0 ==> a <= q <= 0,
{
    if a >= 0 {
        let q = a / b;
        assert(0 <= q <= a) by (nonlinear_arith)
            requires
                q == a as int / b as int,
                a >= 0,
                b > 0,
        ;
        q
    } else {
        let m: i64 = -a;
        let q = m / b;
        assert(0 <= q <= m) by (nonlinear_arith)
            requires
                q == m as int / b as int,
                m >= 0,
                b > 0,
        ;
        -q
    }
}

} // verus!
