use vstd::arithmetic::div_mod::{
    lemma_div_pos_is_pos, lemma_fundamental_div_mod, lemma_mod_pos_bound,
};
use vstd::prelude::*;

verus! {

/// Number of fixed-point units in one pixel.
pub const SCALE: i64 = 1000;

/// Largest absolute value of a component that the vector arithmetic accepts.
pub const COMPONENT_LIMIT: i64 = 1099511627776;

/// Largest squared norm handled by `ceil_sqrt`; covers every in-range vector.
pub const NORM_SQ_LIMIT: u128 = 4835703278458516698824704;

/// A 2D vector in fixed-point units (thousandths of a pixel).
#[derive(Clone, Copy, Debug, PartialEq, Eq, Structural)]
pub struct Vec2 {
    pub x: i64,
    pub y: i64,
}

/// Squared Euclidean length of `(x, y)`.
pub open spec fn norm_sq(x: int, y: int) -> int {
    x * x + y * y
}

/// Integer division rounding toward zero, as Rust's `/` does.
pub open spec fn trunc_div(a: int, d: int) -> int {
    if a >= 0 {
        a / d
    } else {
        -((-a) / d)
    }
}

/// `m` is the smallest natural number whose square is at least `n`.
pub open spec fn is_ceil_sqrt(m: int, n: int) -> bool {
    0 <= m && n <= m * m && (m == 0 || (m - 1) * (m - 1) < n)
}

/// The ceiling of the square root of `n`.
pub open spec fn ceil_sqrt_of(n: int) -> int {
    choose|m: int| is_ceil_sqrt(m, n)
}

/// `(x, y)` rescaled to length `len`, rounding each component toward zero;
/// the zero vector stays zero.
pub open spec fn with_magnitude_of(x: int, y: int, len: int) -> (int, int) {
    if norm_sq(x, y) == 0 {
        (0, 0)
    } else {
        let m = ceil_sqrt_of(norm_sq(x, y));
        (trunc_div(x * len, m), trunc_div(y * len, m))
    }
}

/// `(x, y)` shortened to length `max` when it is longer, else unchanged.
pub open spec fn limited_of(x: int, y: int, max: int) -> (int, int) {
    if norm_sq(x, y) > max * max {
        with_magnitude_of(x, y, max)
    } else {
        (x, y)
    }
}

impl Vec2 {
    pub open spec fn in_range(self) -> bool {
        -COMPONENT_LIMIT <= self.x <= COMPONENT_LIMIT && -COMPONENT_LIMIT <= self.y
            <= COMPONENT_LIMIT
    }

    pub open spec fn len_sq(self) -> int {
        norm_sq(self.x as int, self.y as int)
    }

    pub open spec fn pair(self) -> (int, int) {
        (self.x as int, self.y as int)
    }

    pub fn new(x: i64, y: i64) -> (r: Vec2)
        ensures
            r.x == x && r.y == y,
    {
        Vec2 { x, y }
    }

    pub fn zero() -> (r: Vec2)
        ensures
            r.x == 0 && r.y == 0,
    {
        Vec2 { x: 0, y: 0 }
    }

    pub fn add(self, o: Vec2) -> (r: Vec2)
        requires
            self.in_range(),
            o.in_range(),
        ensures
            r.x == self.x + o.x && r.y == self.y + o.y,
    {
        Vec2 { x: self.x + o.x, y: self.y + o.y }
    }

    pub fn sub(self, o: Vec2) -> (r: Vec2)
        requires
            self.in_range(),
            o.in_range(),
        ensures
            r.x == self.x - o.x && r.y == self.y - o.y,
    {
        Vec2 { x: self.x - o.x, y: self.y - o.y }
    }

    /// Squared length, exact.
    pub fn magnitude_sq(self) -> (r: u128)
        requires
            self.in_range(),
        ensures
            r == self.len_sq(),
            r <= NORM_SQ_LIMIT,
    {
        let x = self.x as i128;
        let y = self.y as i128;
        assert(x * x <= COMPONENT_LIMIT * COMPONENT_LIMIT) by (nonlinear_arith)
            requires
                -COMPONENT_LIMIT <= x <= COMPONENT_LIMIT,
        ;
        assert(y * y <= COMPONENT_LIMIT * COMPONENT_LIMIT) by (nonlinear_arith)
            requires
                -COMPONENT_LIMIT <= y <= COMPONENT_LIMIT,
        ;
        assert(x * x >= 0 && y * y >= 0) by (nonlinear_arith);
        (x * x + y * y) as u128
    }

    /// The vector rescaled to length `len` (the zero vector stays zero).
    pub fn with_magnitude(self, len: i64) -> (r: Vec2)
        requires
            self.in_range(),
            0 <= len <= COMPONENT_LIMIT,
        ensures
            r.pair() == with_magnitude_of(self.x as int, self.y as int, len as int),
            r.len_sq() <= len * len,
            -len <= r.x <= len,
            -len <= r.y <= len,
            r.in_range(),
    {
        let n = self.magnitude_sq();
        if n == 0 {
            return Vec2::zero();
        }
        let m = ceil_sqrt(n);
        proof {
            let (mv, nv) = (m as int, n as int);
            assert(mv >= 1) by (nonlinear_arith)
                requires
                    nv <= mv * mv,
                    nv >= 1,
                    mv >= 0,
            ;
            bound_product(self.x as int, len as int);
            bound_product(self.y as int, len as int);
        }
        let mi = m as i128;
        let xl = (self.x as i128) * (len as i128);
        let yl = (self.y as i128) * (len as i128);
        let rx = div_trunc(xl, mi);
        let ry = div_trunc(yl, mi);
        proof {
            lemma_scaled_norm(self.x as int, self.y as int, len as int, m as int);
            lemma_sq_bound(rx as int, ry as int, len as int);
        }
        Vec2 { x: rx as i64, y: ry as i64 }
    }

    /// The vector shortened to length `max` when it is longer.
    pub fn limit(self, max: i64) -> (r: Vec2)
        requires
            self.in_range(),
            0 <= max <= COMPONENT_LIMIT,
        ensures
            r.pair() == limited_of(self.x as int, self.y as int, max as int),
            r.len_sq() <= max * max,
            -max <= r.x <= max,
            -max <= r.y <= max,
            r.in_range(),
    {
        let n = self.magnitude_sq();
        assert(max * max <= NORM_SQ_LIMIT) by (nonlinear_arith)
            requires
                0 <= max <= COMPONENT_LIMIT,
        ;
        let mm = (max as u128) * (max as u128);
        if n > mm {
            self.with_magnitude(max)
        } else {
            proof {
                lemma_sq_bound(self.x as int, self.y as int, max as int);
            }
            self
        }
    }
}

proof fn bound_product(a: int, len: int)
    requires
        -COMPONENT_LIMIT <= a <= COMPONENT_LIMIT,
        0 <= len <= COMPONENT_LIMIT,
    ensures
        -COMPONENT_LIMIT * COMPONENT_LIMIT <= a * len <= COMPONENT_LIMIT * COMPONENT_LIMIT,
{
    assert(-COMPONENT_LIMIT * COMPONENT_LIMIT <= a * len <= COMPONENT_LIMIT * COMPONENT_LIMIT)
        by (nonlinear_arith)
        requires
            -COMPONENT_LIMIT <= a <= COMPONENT_LIMIT,
            0 <= len <= COMPONENT_LIMIT,
    ;
}

/// Division toward zero by a positive divisor.
pub fn div_trunc(a: i128, d: i128) -> (r: i128)
    requires
        d > 0,
        a > i128::MIN,
    ensures
        r == trunc_div(a as int, d as int),
{
    if a >= 0 {
        proof {
            lemma_div_pos_is_pos(a as int, d as int);
        }
        a / d
    } else {
        let na = -a;
        proof {
            lemma_div_pos_is_pos(na as int, d as int);
        }
        -(na / d)
    }
}

/// `|trunc_div(a, m)| * m <= |a|`.
proof fn lemma_trunc_div_abs(a: int, m: int)
    requires
        m >= 1,
    ensures
        trunc_div(a, m) * trunc_div(a, m) * (m * m) <= a * a,
{
    let b = if a >= 0 { a } else { -a };
    lemma_fundamental_div_mod(b, m);
    lemma_mod_pos_bound(b, m);
    lemma_div_pos_is_pos(b, m);
    let q = b / m;
    assert(0 <= q * m <= b) by (nonlinear_arith)
        requires
            b == m * q + b % m,
            0 <= b % m,
            q >= 0,
            m >= 1,
    ;
    assert(q * m * q * m <= b * b) by (nonlinear_arith)
        requires
            0 <= q * m <= b,
    ;
    let t = trunc_div(a, m);
    assert(t * t * (m * m) == q * m * q * m) by (nonlinear_arith)
        requires
            t == q || t == -q,
    ;
    assert(b * b == a * a) by (nonlinear_arith)
        requires
            b == a || b == -a,
    ;
}

/// Rescaling by `len / m` with `m * m >= x * x + y * y` never makes a vector
/// longer than `len`.
proof fn lemma_scaled_norm(x: int, y: int, len: int, m: int)
    requires
        m >= 1,
        len >= 0,
        norm_sq(x, y) <= m * m,
    ensures
        norm_sq(trunc_div(x * len, m), trunc_div(y * len, m)) <= len * len,
{
    let rx = trunc_div(x * len, m);
    let ry = trunc_div(y * len, m);
    lemma_trunc_div_abs(x * len, m);
    lemma_trunc_div_abs(y * len, m);
    let p = rx * rx;
    let q = ry * ry;
    let mm = m * m;
    let ll = len * len;
    assert((x * len) * (x * len) == (x * x) * ll) by (nonlinear_arith)
        requires
            ll == len * len,
    ;
    assert((y * len) * (y * len) == (y * y) * ll) by (nonlinear_arith)
        requires
            ll == len * len,
    ;
    assert((p + q) * mm == p * mm + q * mm) by (nonlinear_arith);
    assert((x * x + y * y) * ll == (x * x) * ll + (y * y) * ll) by (nonlinear_arith);
    assert((rx * rx + ry * ry) * (m * m) <= (x * x + y * y) * (len * len));
    assert((x * x + y * y) * (len * len) <= (m * m) * (len * len)) by (nonlinear_arith)
        requires
            x * x + y * y <= m * m,
            len >= 0,
    ;
    assert(rx * rx + ry * ry <= len * len) by (nonlinear_arith)
        requires
            (rx * rx + ry * ry) * (m * m) <= (m * m) * (len * len),
            m >= 1,
    ;
}

proof fn lemma_sq_bound(x: int, y: int, len: int)
    requires
        norm_sq(x, y) <= len * len,
        0 <= len <= COMPONENT_LIMIT,
    ensures
        -len <= x <= len,
        -len <= y <= len,
{
    assert(-len <= x <= len && -len <= y <= len) by (nonlinear_arith)
        requires
            x * x + y * y <= len * len,
            len >= 0,
    ;
}

/// Any two ceiling square roots of `n` agree.
proof fn lemma_ceil_sqrt_unique(a: int, b: int, n: int)
    requires
        is_ceil_sqrt(a, n),
        is_ceil_sqrt(b, n),
    ensures
        a == b,
{
    if a < b {
        assert((b - 1) * (b - 1) >= a * a) by (nonlinear_arith)
            requires
                0 <= a <= b - 1,
        ;
    } else if b < a {
        assert((a - 1) * (a - 1) >= b * b) by (nonlinear_arith)
            requires
                0 <= b <= a - 1,
        ;
    }
}

/// The ceiling of the square root, by bisection.
pub fn ceil_sqrt(n: u128) -> (m: u128)
    requires
        n <= NORM_SQ_LIMIT,
    ensures
        is_ceil_sqrt(m as int, n as int),
        m == ceil_sqrt_of(n as int),
        m <= 2199023255552,
{
    if n == 0 {
        proof {
            assert(is_ceil_sqrt(0, 0));
            lemma_ceil_sqrt_unique(0, ceil_sqrt_of(0), 0);
        }
        return 0;
    }
    let mut lo: u128 = 0;
    let mut hi: u128 = 2199023255552;
    assert(hi * hi == NORM_SQ_LIMIT);
    while hi - lo > 1
        invariant
            lo < hi <= 2199023255552,
            lo * lo < n,
            n <= hi * hi,
        decreases hi - lo,
    {
        let mid = lo + (hi - lo) / 2;
        assert(mid * mid <= NORM_SQ_LIMIT) by (nonlinear_arith)
            requires
                mid <= 2199023255552,
        ;
        if mid * mid < n {
            lo = mid;
        } else {
            hi = mid;
        }
    }
    proof {
        assert(is_ceil_sqrt(hi as int, n as int));
        lemma_ceil_sqrt_unique(hi as int, ceil_sqrt_of(n as int), n as int);
    }
    hi
}

} // verus!

verus! {

/// Dividing by `k >= 1` something no larger than `k * c` gives at most `c`.
pub proof fn lemma_trunc_div_bound(a: int, k: int, c: int)
    requires
        k >= 1,
        c >= 0,
        -(k * c) <= a <= k * c,
    ensures
        -c <= trunc_div(a, k) <= c,
        a >= 0 ==> 0 <= trunc_div(a, k) <= a,
        a < 0 ==> a <= trunc_div(a, k) <= 0,
{
    let b = if a >= 0 { a } else { -a };
    lemma_fundamental_div_mod(b, k);
    lemma_mod_pos_bound(b, k);
    lemma_div_pos_is_pos(b, k);
    let q = b / k;
    assert(q <= c && q <= b) by (nonlinear_arith)
        requires
            b == k * q + b % k,
            0 <= b % k,
            q >= 0,
            k >= 1,
            b <= k * c,
    ;
}

} // verus!
