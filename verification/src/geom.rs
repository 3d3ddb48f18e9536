//! Fixed-point 2D geometry: vectors in milli-units, exact integer
//! arithmetic, integer square root, and a fixed-point table of sine and
//! cosine at the vessel's discrete heading steps (multiples of pi/24).

use vstd::prelude::*;

verus! {

/// Scale of the fixed-point unit vectors and trig table: a vector of length
/// one world unit has fixed-point length 1000.
pub const FP_SCALE: i64 = 1000;

/// Bound on every coordinate the simulation handles, in milli-units
/// (16000 world units; the play area extends to 4 window widths, 5120).
pub const COORD_LIMIT: i64 = 16000000;

/// A 2D vector with both components in milli-units (thousandths of a world
/// unit).
#[derive(Clone, Copy, Debug, PartialEq, Eq, Structural)]
pub struct Vec2i {
    pub x: i64,
    pub y: i64,
}

/// Dot product of two vectors, as a mathematical integer.
pub open spec fn dot(a: Vec2i, b: Vec2i) -> int {
    a.x * b.x + a.y * b.y
}

/// Squared length of `v`, as a mathematical integer.
pub open spec fn norm_sq(v: Vec2i) -> int {
    v.x * v.x + v.y * v.y
}

/// Squared distance between two points, as a mathematical integer.
pub open spec fn dist2(a: Vec2i, b: Vec2i) -> int {
    (a.x - b.x) * (a.x - b.x) + (a.y - b.y) * (a.y - b.y)
}

/// Both coordinates of `v` are within `limit`.
pub open spec fn in_bounds(v: Vec2i, limit: int) -> bool {
    -limit <= v.x <= limit && -limit <= v.y <= limit
}

/// Truncating integer division (the semantics of Rust's `/` on signed
/// integers), for a positive divisor.
pub open spec fn tdiv(a: int, b: int) -> int
    recommends
        b > 0,
{
    if a >= 0 {
        a / b
    } else {
        -((-a) / b)
    }
}

/// `r` is the integer square root of `n` rounded down.
pub open spec fn is_sqrt_floor(n: int, r: int) -> bool {
    0 <= r && r * r <= n < (r + 1) * (r + 1)
}

/// The integer square root of `n` rounded down, as a spec-level value.
pub open spec fn sqrt_floor(n: int) -> int {
    choose|r: int| is_sqrt_floor(n, r)
}

/// Every natural number has an integer square root rounded down.
pub proof fn lemma_sqrt_exists(n: int)
    requires
        n >= 0,
    ensures
        is_sqrt_floor(n, sqrt_floor(n)),
    decreases n,
{
    if n == 0 {
        assert(is_sqrt_floor(0, 0));
    } else {
        lemma_sqrt_exists(n - 1);
        let r = sqrt_floor(n - 1);
        if (r + 1) * (r + 1) <= n {
            assert((r + 2) * (r + 2) > n) by (nonlinear_arith)
                requires
                    r >= 0,
                    (r + 1) * (r + 1) > n - 1,
            {
            }
            assert(is_sqrt_floor(n, r + 1));
        } else {
            assert(is_sqrt_floor(n, r));
        }
    }
}

/// The integer square root rounded down is unique.
pub proof fn lemma_sqrt_unique(n: int, r1: int, r2: int)
    requires
        is_sqrt_floor(n, r1),
        is_sqrt_floor(n, r2),
    ensures
        r1 == r2,
{
    if r1 < r2 {
        assert((r1 + 1) * (r1 + 1) <= r2 * r2) by (nonlinear_arith)
            requires
                0 <= r1,
                0 <= r2,
                r1 < r2,
        {
        }
    }
    if r2 < r1 {
        assert((r2 + 1) * (r2 + 1) <= r1 * r1) by (nonlinear_arith)
            requires
                0 <= r1,
                0 <= r2,
                r2 < r1,
        {
        }
    }
}

impl Vec2i {
    pub fn new(x: i64, y: i64) -> (r: Vec2i)
        ensures
            r == (Vec2i { x, y }),
    {
        Vec2i { x, y }
    }

    /// The origin.
    pub fn zero() -> (r: Vec2i)
        ensures
            r == (Vec2i { x: 0, y: 0 }),
    {
        Vec2i { x: 0, y: 0 }
    }

}

/// Squared distance between two points, exact.
pub fn dist_sq(a: Vec2i, b: Vec2i) -> (r: i64)
    requires
        in_bounds(a, COORD_LIMIT as int),
        in_bounds(b, COORD_LIMIT as int),
    ensures
        r == dist2(a, b),
        r >= 0,
{
    let dx: i64 = a.x - b.x;
    let dy: i64 = a.y - b.y;
    proof {
        assert(dx * dx <= 32000000 * 32000000 && dx * dx >= 0) by (nonlinear_arith)
            requires
                -32000000 <= dx <= 32000000,
        {
        }
        assert(dy * dy <= 32000000 * 32000000 && dy * dy >= 0) by (nonlinear_arith)
            requires
                -32000000 <= dy <= 32000000,
        {
        }
    }
    dx * dx + dy * dy
}

/// Integer square root of `n`, rounded down.
pub fn isqrt(n: u64) -> (r: u64)
    ensures
        is_sqrt_floor(n as int, r as int),
        r == sqrt_floor(n as int),
{
    let mut lo: u64 = 0;
    let mut hi: u64 = 0xFFFF_FFFF;
    proof {
        assert(0x1_0000_0000int * 0x1_0000_0000int == 0x1_0000_0000_0000_0000int) by (nonlinear_arith);
    }
    while lo < hi
        invariant
            lo <= hi <= 0xFFFF_FFFF,
            lo * lo <= n as int,
            (hi + 1) * (hi + 1) > n as int,
        decreases hi - lo,
    {
        let mid: u64 = lo + (hi - lo + 1) / 2;
        proof {
            assert(mid * mid <= 0xFFFF_FFFFu64 * 0xFFFF_FFFFu64) by (nonlinear_arith)
                requires
                    0 <= mid <= 0xFFFF_FFFFu64,
            {
            }
        }
        if (mid as u128) * (mid as u128) <= (n as u128) {
            lo = mid;
        } else {
            hi = mid - 1;
        }
    }
    proof {
        lemma_sqrt_exists(n as int);
        lemma_sqrt_unique(n as int, lo as int, sqrt_floor(n as int));
    }
    lo
}

/// `0 <= a <= c * b` implies `a / b <= c`, for a positive divisor.
pub proof fn lemma_div_le_bound(a: int, b: int, c: int)
    requires
        b > 0,
        c >= 0,
        0 <= a <= c * b,
    ensures
        0 <= a / b <= c,
{
    vstd::arithmetic::div_mod::lemma_div_is_ordered(a, c * b, b);
    vstd::arithmetic::div_mod::lemma_div_by_multiple(c, b);
    vstd::arithmetic::div_mod::lemma_div_pos_is_pos(a, b);
}

/// Truncating division by a positive divisor, the semantics of `/` on a
/// possibly negative dividend.
pub fn div_trunc(a: i64, b: i64) -> (r: i64)
    requires
        b > 0,
        a > i64::MIN,
    ensures
        r == tdiv(a as int, b as int),
        a >= 0 ==> 0 <= r <= a,
        a < 0 ==> a <= r <= 0,
{
    if a >= 0 {
        let q: u64 = (a as u64) / (b as u64);
        q as i64
    } else {
        let q: u64 = ((-a) as u64) / (b as u64);
        -(q as i64)
    }
}

/// Fixed-point sine on the first quarter turn: `qsin(k)` is
/// `sin(k * pi/24) * 1000`, rounded, for `0 <= k <= 12`.
pub open spec fn qsin(k: int) -> int {
    if k <= 0 {
        0
    } else if k == 1 {
        131
    } else if k == 2 {
        259
    } else if k == 3 {
        383
    } else if k == 4 {
        500
    } else if k == 5 {
        609
    } else if k == 6 {
        707
    } else if k == 7 {
        793
    } else if k == 8 {
        866
    } else if k == 9 {
        924
    } else if k == 10 {
        966
    } else if k == 11 {
        991
    } else {
        1000
    }
}

/// Fixed-point sine of heading step `k` (each step is pi/24), scaled by
/// 1000, for `0 <= k < 48`.
pub open spec fn sin_milli(k: int) -> int {
    if k <= 12 {
        qsin(k)
    } else if k <= 24 {
        qsin(24 - k)
    } else if k <= 36 {
        -qsin(k - 24)
    } else {
        -qsin(48 - k)
    }
}

/// Fixed-point cosine of heading step `k`, scaled by 1000, for
/// `0 <= k < 48`: the sine a quarter turn further on.
pub open spec fn cos_milli(k: int) -> int {
    if k < 36 {
        sin_milli(k + 12)
    } else {
        sin_milli(k - 36)
    }
}

/// Fixed-point sine on the first quarter turn, executable.
fn qsin_fp(k: u32) -> (r: i64)
    requires
        k <= 12,
    ensures
        r == qsin(k as int),
{
    match k {
        0 => 0,
        1 => 131,
        2 => 259,
        3 => 383,
        4 => 500,
        5 => 609,
        6 => 707,
        7 => 793,
        8 => 866,
        9 => 924,
        10 => 966,
        11 => 991,
        _ => 1000,
    }
}

/// Fixed-point sine of heading step `k`, scaled by 1000.
pub fn sin_fp(k: u32) -> (r: i64)
    requires
        k < 48,
    ensures
        r == sin_milli(k as int),
        -1000 <= r <= 1000,
{
    if k <= 12 {
        qsin_fp(k)
    } else if k <= 24 {
        qsin_fp(24 - k)
    } else if k <= 36 {
        -qsin_fp(k - 24)
    } else {
        -qsin_fp(48 - k)
    }
}

/// Fixed-point cosine of heading step `k`, scaled by 1000.
pub fn cos_fp(k: u32) -> (r: i64)
    requires
        k < 48,
    ensures
        r == cos_milli(k as int),
        -1000 <= r <= 1000,
{
    if k < 36 {
        sin_fp(k + 12)
    } else {
        sin_fp(k - 36)
    }
}

/// A point `(x, y)` given in whole world units, rotated by heading step `h`
/// and scaled to milli-units: the standard rotation
/// `(x cos - y sin, x sin + y cos)`, exact because the trig scale of 1000
/// is exactly the milli-unit scale.
pub open spec fn rot_units(x: int, y: int, h: int) -> Vec2i {
    Vec2i {
        x: (x * cos_milli(h) - y * sin_milli(h)) as i64,
        y: (x * sin_milli(h) + y * cos_milli(h)) as i64,
    }
}

/// Rotates the point `(x, y)` (whole world units) by heading step `h`,
/// returning milli-units.
pub fn rotate_units(x: i64, y: i64, h: u32) -> (r: Vec2i)
    requires
        -1000 <= x <= 1000,
        -1000 <= y <= 1000,
        h < 48,
    ensures
        r == rot_units(x as int, y as int, h as int),
        in_bounds(r, 2000000),
{
    let c: i64 = cos_fp(h);
    let s: i64 = sin_fp(h);
    proof {
        assert(-1000000 <= x * c <= 1000000 && -1000000 <= y * s <= 1000000 && -1000000 <= x * s
            <= 1000000 && -1000000 <= y * c <= 1000000) by (nonlinear_arith)
            requires
                -1000 <= x <= 1000,
                -1000 <= y <= 1000,
                -1000 <= c <= 1000,
                -1000 <= s <= 1000,
        {
        }
    }
    Vec2i { x: x * c - y * s, y: x * s + y * c }
}

/// The unit vector along `v`, in fixed-point scale 1000: each component is
/// `1000 * v / |v|`, with truncating division by the rounded-down length.
pub open spec fn unit_of(v: Vec2i) -> Vec2i {
    let l = sqrt_floor(norm_sq(v));
    Vec2i { x: tdiv(1000 * v.x, l) as i64, y: tdiv(1000 * v.y, l) as i64 }
}

/// Fixed-point normalization of a nonzero vector.
pub fn normalize(v: Vec2i) -> (r: Vec2i)
    requires
        in_bounds(v, COORD_LIMIT as int),
        !(v.x == 0 && v.y == 0),
    ensures
        r == unit_of(v),
        in_bounds(r, FP_SCALE as int),
{
    let nsq: i64 = dist_sq(v, Vec2i::zero());
    proof {
        assert(nsq == norm_sq(v));
        assert(v.x * v.x >= 0 && v.y * v.y >= 0) by (nonlinear_arith);
        assert(v.x != 0 ==> v.x * v.x >= 1) by (nonlinear_arith);
        assert(v.y != 0 ==> v.y * v.y >= 1) by (nonlinear_arith);
        assert(nsq >= 1);
        assert(nsq < 0x4000_0000_0000_0000) by (nonlinear_arith)
            requires
                nsq == v.x * v.x + v.y * v.y,
                -16000000 <= v.x <= 16000000,
                -16000000 <= v.y <= 16000000,
        {
        }
    }
    let l64: u64 = isqrt(nsq as u64);
    proof {
        assert(l64 >= 1) by {
            if l64 == 0 {
                assert((l64 + 1) * (l64 + 1) == 1) by (nonlinear_arith)
                    requires
                        l64 == 0u64,
                {
                }
            }
        }
        assert(l64 * l64 <= nsq);
        assert(l64 < 0x8000_0000u64) by (nonlinear_arith)
            requires
                l64 * l64 < 0x4000_0000_0000_0000,
        {
        }
    }
    let l: i64 = l64 as i64;
    let dx: i64 = div_trunc(1000 * v.x, l);
    let dy: i64 = div_trunc(1000 * v.y, l);
    proof {
        lemma_abs_le_sqrt(v.x as int, v.y as int, l as int);
        lemma_abs_le_sqrt(v.y as int, v.x as int, l as int);
        if v.x >= 0 {
            lemma_div_le_bound(1000 * v.x, l as int, 1000);
        } else {
            lemma_div_le_bound(1000 * (-v.x), l as int, 1000);
        }
        if v.y >= 0 {
            lemma_div_le_bound(1000 * v.y, l as int, 1000);
        } else {
            lemma_div_le_bound(1000 * (-v.y), l as int, 1000);
        }
    }
    Vec2i { x: dx, y: dy }
}

/// A component of a vector is no longer than the rounded-down length of the
/// whole vector.
proof fn lemma_abs_le_sqrt(a: int, b: int, l: int)
    requires
        l >= 0,
        l * l <= a * a + b * b < (l + 1) * (l + 1),
    ensures
        -l <= a <= l,
{
    assert(b * b >= 0) by (nonlinear_arith);
    assert(-l <= a <= l) by (nonlinear_arith)
        requires
            l >= 0,
            a * a + b * b < (l + 1) * (l + 1),
            b * b >= 0,
    {
    }
}

} // verus!
