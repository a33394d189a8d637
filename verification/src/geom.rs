//! Fixed-point geometry: positions, velocities and distances are integers in
//! units of one ten-thousandth of a block, so the spatial and entity
//! arithmetic is exact and provably free of overflow.

use vstd::prelude::*;

verus! {

/// One block, in fixed-point units.
pub const FIX_ONE: i64 = 10000;

/// Half a block, in fixed-point units.
pub const FIX_HALF: i64 = 5000;

/// Positions are kept inside this bound on each axis.
pub const POS_LIMIT: i64 = 1000000000000;

/// Velocities are kept inside this bound on each axis, per tick.
pub const VEL_LIMIT: i64 = 1000000;

/// Largest ray or travel distance accepted.
pub const DIST_LIMIT: i64 = 100000000;

/// Largest blast or body radius accepted.
pub const RADIUS_LIMIT: i64 = 2000000;

/// A point or direction in fixed-point world space.
#[derive(Clone, Copy, PartialEq, Eq, Structural, Debug)]
pub struct Vec3 {
    pub x: i64,
    pub y: i64,
    pub z: i64,
}

impl Vec3 {
    /// All components inside the position bound.
    pub open spec fn spec_in_pos_range(self) -> bool {
        &&& -POS_LIMIT <= self.x <= POS_LIMIT
        &&& -POS_LIMIT <= self.y <= POS_LIMIT
        &&& -POS_LIMIT <= self.z <= POS_LIMIT
    }

    /// All components inside the velocity bound.
    pub open spec fn spec_in_vel_range(self) -> bool {
        &&& -VEL_LIMIT <= self.x <= VEL_LIMIT
        &&& -VEL_LIMIT <= self.y <= VEL_LIMIT
        &&& -VEL_LIMIT <= self.z <= VEL_LIMIT
    }

    /// The zero vector: no direction.
    pub open spec fn spec_is_zero(self) -> bool {
        self.x == 0 && self.y == 0 && self.z == 0
    }

    /// Build a vector from its components.
    pub fn new(x: i64, y: i64, z: i64) -> (r: Vec3)
        ensures
            r.x == x,
            r.y == y,
            r.z == z,
    {
        Vec3 { x, y, z }
    }
}

/// Absolute value.
pub open spec fn spec_abs(a: int) -> int {
    if a >= 0 {
        a
    } else {
        -a
    }
}

/// Clamp into a closed interval.
pub open spec fn spec_clamp(v: int, lo: int, hi: int) -> int {
    if v < lo {
        lo
    } else if v > hi {
        hi
    } else {
        v
    }
}

/// Clamp into a closed interval, executable form.
pub fn clamp_i64(v: i64, lo: i64, hi: i64) -> (r: i64)
    requires
        lo <= hi,
    ensures
        r == spec_clamp(v as int, lo as int, hi as int),
{
    if v < lo {
        lo
    } else if v > hi {
        hi
    } else {
        v
    }
}

/// Division that truncates toward zero, the rounding the executable
/// arithmetic below uses.
pub open spec fn spec_div_trunc(a: int, b: int) -> int
    recommends
        b > 0,
{
    if a >= 0 {
        a / b
    } else {
        -((-a) / b)
    }
}

/// Truncating division on wide intermediates.
pub fn div_trunc_i128(a: i128, b: i128) -> (r: i128)
    requires
        b > 0,
        -0x10000000000000000000000000000000 <= a
            <= 0x10000000000000000000000000000000,
    ensures
        r == spec_div_trunc(a as int, b as int),
        spec_abs(r as int) <= spec_abs(a as int),
{
    if a >= 0 {
        let q: i128 = a / b;
        proof {
            assert(0 <= (a as int) / (b as int) <= a as int) by (nonlinear_arith)
                requires
                    a as int >= 0,
                    b as int > 0,
            ;
        }
        q
    } else {
        let m: i128 = -a;
        let q: i128 = m / b;
        proof {
            assert(0 <= (m as int) / (b as int) <= m as int) by (nonlinear_arith)
                requires
                    m as int >= 0,
                    b as int > 0,
            ;
        }
        -q
    }
}

/// Division that rounds toward negative infinity, as mathematical integer
/// division does: used to find the cell containing a coordinate.
pub fn floor_div(a: i64, b: i64) -> (r: i64)
    requires
        0 < b <= 1000000,
        -0x4000000000000000 <= a <= 0x4000000000000000,
    ensures
        r == (a as int) / (b as int),
{
    if a >= 0 {
        let q: i64 = a / b;
        q
    } else {
        let m: i64 = -a;
        let q: i64 = (m + b - 1) / b;
        proof {
            let mi = m as int;
            let bi = b as int;
            let qi = (mi + bi - 1) / bi;
            assert(qi * bi >= mi && (qi - 1) * bi < mi && qi >= 0) by (nonlinear_arith)
                requires
                    mi > 0,
                    bi > 0,
                    qi == (mi + bi - 1) / bi,
            ;
            assert((-mi) / bi == -qi) by (nonlinear_arith)
                requires
                    bi > 0,
                    qi * bi >= mi,
                    (qi - 1) * bi < mi,
                    qi >= 0,
                    mi > 0,
            ;
        }
        -q
    }
}

/// The cell index containing a fixed-point coordinate.
pub open spec fn spec_cell_of(p: int) -> int {
    p / (FIX_ONE as int)
}

/// The cell index containing a fixed-point coordinate, executable form.
pub fn cell_of(p: i64) -> (r: i64)
    requires
        -0x4000000000000000 <= p <= 0x4000000000000000,
    ensures
        r == spec_cell_of(p as int),
{
    floor_div(p, FIX_ONE)
}

/// The integer square root, rounded down.
pub open spec fn spec_sqrt_floor(n: nat) -> nat
    decreases n,
{
    if n == 0 {
        0
    } else {
        let r = spec_sqrt_floor((n - 1) as nat);
        if (r + 1) * (r + 1) <= n {
            r + 1
        } else {
            r
        }
    }
}

/// The integer square root is the unique value whose square is at most `n`
/// while the next square exceeds it.
pub proof fn lemma_sqrt_floor(n: nat)
    ensures
        (spec_sqrt_floor(n) as int) * (spec_sqrt_floor(n) as int) <= n as int,
        (spec_sqrt_floor(n) as int + 1) * (spec_sqrt_floor(n) as int + 1) > n as int,
    decreases n,
{
    if n > 0 {
        lemma_sqrt_floor((n - 1) as nat);
        let r0 = spec_sqrt_floor((n - 1) as nat) as int;
        if (r0 + 1) * (r0 + 1) <= n as int {
            assert(spec_sqrt_floor(n) as int == r0 + 1);
            assert(n as int - 1 < (r0 + 1) * (r0 + 1));
            assert(n as int == (r0 + 1) * (r0 + 1));
            assert((r0 + 2) * (r0 + 2) > n as int) by (nonlinear_arith)
                requires
                    n as int == (r0 + 1) * (r0 + 1),
                    r0 >= 0,
            ;
            assert((spec_sqrt_floor(n) as int) * (spec_sqrt_floor(n) as int) <= n as int);
        } else {
            assert(spec_sqrt_floor(n) as int == r0);
            assert(r0 * r0 <= n as int - 1 <= n as int);
            assert((r0 + 1) * (r0 + 1) > n as int);
            assert((spec_sqrt_floor(n) as int) * (spec_sqrt_floor(n) as int) <= n as int);
        }
    } else {
        assert(spec_sqrt_floor(n) == 0);
        assert((spec_sqrt_floor(n) as int) * (spec_sqrt_floor(n) as int) <= n as int);
    }
}

/// Any value whose square is at most `n`, with the next square above `n`,
/// is the integer square root.
pub proof fn lemma_sqrt_floor_unique(n: nat, r: nat)
    requires
        (r as int) * (r as int) <= n as int,
        (r as int + 1) * (r as int + 1) > n as int,
    ensures
        r == spec_sqrt_floor(n),
{
    lemma_sqrt_floor(n);
    let s = spec_sqrt_floor(n) as int;
    let ri = r as int;
    assert(ri == s) by (nonlinear_arith)
        requires
            ri * ri <= n as int,
            (ri + 1) * (ri + 1) > n as int,
            s * s <= n as int,
            (s + 1) * (s + 1) > n as int,
            ri >= 0,
            s >= 0,
    ;
}

/// Integer square root of a wide unsigned value.
pub fn isqrt_u128(n: u128) -> (r: u128)
    ensures
        r == spec_sqrt_floor(n as nat),
        r * r <= n,
        (r + 1) * (r + 1) > n,
        r <= 0xffffffffffffffff,
{
    let mut lo: u128 = 0;
    let mut hi: u128 = 0x10000000000000000;
    while hi - lo > 1
        invariant
            lo < hi <= 0x10000000000000000,
            lo * lo <= n,
            hi * hi > n,
        decreases hi - lo,
    {
        let mid: u128 = lo + (hi - lo) / 2;
        proof {
            assert(mid * mid <= 0xffffffffffffffffffffffffffffffff) by (nonlinear_arith)
                requires
                    mid <= 0xffffffffffffffff,
            ;
        }
        if mid * mid <= n {
            lo = mid;
        } else {
            hi = mid;
        }
    }
    proof {
        assert((lo + 1) * (lo + 1) > n);
        lemma_sqrt_floor_unique(n as nat, lo as nat);
    }
    lo
}

/// The length (rounded down) of a vector, in fixed-point units.
pub open spec fn spec_len(v: Vec3) -> int {
    spec_sqrt_floor((v.x * v.x + v.y * v.y + v.z * v.z) as nat) as int
}

/// Each component of a vector is bounded by its length.
pub proof fn lemma_len_bounds_components(v: Vec3)
    ensures
        spec_abs(v.x as int) <= spec_len(v),
        spec_abs(v.y as int) <= spec_len(v),
        spec_abs(v.z as int) <= spec_len(v),
        spec_len(v) >= 0,
{
    assert(v.x * v.x >= 0 && v.y * v.y >= 0 && v.z * v.z >= 0) by (nonlinear_arith);
    let n = (v.x * v.x + v.y * v.y + v.z * v.z) as nat;
    lemma_sqrt_floor(n);
    let r = spec_sqrt_floor(n) as int;
    assert(spec_abs(v.x as int) <= r && spec_abs(v.y as int) <= r && spec_abs(v.z as int) <= r)
        by (nonlinear_arith)
        requires
            (r + 1) * (r + 1) > n as int,
            n as int == v.x * v.x + v.y * v.y + v.z * v.z,
            v.x * v.x >= 0,
            v.y * v.y >= 0,
            v.z * v.z >= 0,
            r >= 0,
    ;
}

/// The length of a vector, executable form.
pub fn vec_len(v: Vec3) -> (r: i64)
    requires
        v.spec_in_pos_range(),
    ensures
        r == spec_len(v),
        r >= 0,
    {
    let x: i128 = v.x as i128;
    let y: i128 = v.y as i128;
    let z: i128 = v.z as i128;
    proof {
        assert(x * x >= 0 && y * y >= 0 && z * z >= 0 && x * x <= 1000000000000000000000000 && y
            * y <= 1000000000000000000000000 && z * z <= 1000000000000000000000000)
            by (nonlinear_arith)
            requires
                -1000000000000 <= x <= 1000000000000,
                -1000000000000 <= y <= 1000000000000,
                -1000000000000 <= z <= 1000000000000,
        ;
    }
    let sum: i128 = x * x + y * y + z * z;
    let n: u128 = sum as u128;
    let r: u128 = isqrt_u128(n);
    proof {
        let rr = spec_sqrt_floor(n as nat) as int;
        assert(rr * rr <= n as int && (rr + 1) * (rr + 1) > n as int) by {
            lemma_sqrt_floor(n as nat);
        }
        assert(rr <= 2000000000000) by (nonlinear_arith)
            requires
                rr * rr <= n as int,
                n as int <= 3000000000000000000000000,
                rr >= 0,
        ;
    }
    r as i64
}

/// Scaling a value by `FIX_ONE` and dividing by a bound on its magnitude
/// stays within `FIX_ONE`.
pub proof fn lemma_div_trunc_scaled_bound(a: int, l: int)
    requires
        l > 0,
        spec_abs(a) <= l,
    ensures
        spec_abs(spec_div_trunc(a * FIX_ONE, l)) <= FIX_ONE as int,
{
    if a >= 0 {
        assert(a * FIX_ONE >= 0 && a * FIX_ONE / l <= FIX_ONE && a * FIX_ONE / l >= 0)
            by (nonlinear_arith)
            requires
                l > 0,
                0 <= a <= l,
        ;
    } else {
        let m = -a;
        assert(m * FIX_ONE >= 0 && m * FIX_ONE / l <= FIX_ONE && m * FIX_ONE / l >= 0)
            by (nonlinear_arith)
            requires
                l > 0,
                0 <= m <= l,
        ;
        assert(-(a * (FIX_ONE as int)) == m * FIX_ONE) by (nonlinear_arith)
            requires
                m == -a,
        ;
        assert(spec_div_trunc(a * FIX_ONE, l) == -(m * FIX_ONE / l));
    }
}

/// A product scaled down by a bound on one factor stays within the other:
/// `|a| <= b` gives `|a * c / b| <= c`.
pub proof fn lemma_div_trunc_prod_bound(a: int, c: int, b: int)
    requires
        b > 0,
        c >= 0,
        spec_abs(a) <= b,
    ensures
        spec_abs(spec_div_trunc(a * c, b)) <= c,
{
    if a >= 0 {
        assert(a * c >= 0 && a * c / b <= c && a * c / b >= 0) by (nonlinear_arith)
            requires
                b > 0,
                c >= 0,
                0 <= a <= b,
        ;
    } else {
        let m = -a;
        assert(m * c >= 0 && m * c / b <= c && m * c / b >= 0) by (nonlinear_arith)
            requires
                b > 0,
                c >= 0,
                0 <= m <= b,
        ;
        assert(-(a * c) == m * c) by (nonlinear_arith)
            requires
                m == -a,
        ;
        assert(spec_div_trunc(a * c, b) == -(m * c / b));
    }
}

/// A coordinate within twice the position bound maps to a cell index well
/// inside the 32-bit range.
pub proof fn lemma_cell_of_in_i32(p: int)
    requires
        -2100000000000 <= p <= 2100000000000,
    ensures
        -210000001 <= p / (FIX_ONE as int) <= 210000000,
{
    assert(-210000001 <= p / 10000 <= 210000000) by (nonlinear_arith)
        requires
            -2100000000000 <= p <= 2100000000000,
    ;
}

/// The direction of a non-zero vector, scaled so a unit length is `FIX_ONE`;
/// each component is obtained by truncating division by the vector's length.
pub open spec fn spec_normalize(v: Vec3) -> Vec3
    recommends
        !v.spec_is_zero(),
{
    let l = spec_len(v);
    Vec3 {
        x: spec_div_trunc(v.x * FIX_ONE, l) as i64,
        y: spec_div_trunc(v.y * FIX_ONE, l) as i64,
        z: spec_div_trunc(v.z * FIX_ONE, l) as i64,
    }
}

/// Normalize a direction: `None` exactly for the zero vector. Each component
/// of the result is at most `FIX_ONE` in magnitude.
pub fn normalize(v: Vec3) -> (r: Option<Vec3>)
    requires
        v.spec_in_pos_range(),
    ensures
        match r {
            Option::None => v.spec_is_zero(),
            Option::Some(u) => !v.spec_is_zero() && u == spec_normalize(v)
                && -FIX_ONE <= u.x <= FIX_ONE && -FIX_ONE <= u.y <= FIX_ONE && -FIX_ONE <= u.z
                <= FIX_ONE,
        },
{
    if v.x == 0 && v.y == 0 && v.z == 0 {
        return Option::None;
    }
    let l: i64 = vec_len(v);
    proof {
        lemma_len_bounds_components(v);
        if l == 0 {
            assert(spec_abs(v.x as int) == 0 && spec_abs(v.y as int) == 0 && spec_abs(
                v.z as int,
            ) == 0);
            assert(false);
        }
    }
    proof {
        assert(-10000000000000000 <= (v.x as int) * 10000 <= 10000000000000000
            && -10000000000000000 <= (v.y as int) * 10000 <= 10000000000000000
            && -10000000000000000 <= (v.z as int) * 10000 <= 10000000000000000)
            by (nonlinear_arith)
            requires
                -1000000000000 <= v.x <= 1000000000000,
                -1000000000000 <= v.y <= 1000000000000,
                -1000000000000 <= v.z <= 1000000000000,
        ;
    }
    let lx: i128 = (v.x as i128) * (FIX_ONE as i128);
    let ly: i128 = (v.y as i128) * (FIX_ONE as i128);
    let lz: i128 = (v.z as i128) * (FIX_ONE as i128);
    let nx: i128 = div_trunc_i128(lx, l as i128);
    let ny: i128 = div_trunc_i128(ly, l as i128);
    let nz: i128 = div_trunc_i128(lz, l as i128);
    proof {
        let li = l as int;
        lemma_div_trunc_scaled_bound(v.x as int, li);
        lemma_div_trunc_scaled_bound(v.y as int, li);
        lemma_div_trunc_scaled_bound(v.z as int, li);
    }
    Option::Some(Vec3 { x: nx as i64, y: ny as i64, z: nz as i64 })
}

} // verus!
