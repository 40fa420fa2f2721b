//! Fixed-point points, bounds, headings and the overlap test.
use vstd::prelude::*;

verus! {

/// Fixed-point steps per world unit (positions, speeds, health, damage, shake).
pub const ONE: i64 = 1_000_000;

/// Largest absolute coordinate of the simulated world (2^40 steps).
pub const WORLD_LIMIT: i64 = 1_099_511_627_776;

/// Side of the square hit-box shared by enemies and projectiles (8 world units).
pub const HIT_BOX: i64 = 8_000_000;

/// A position, offset or velocity in fixed-point steps.
#[derive(Clone, Copy, Debug, PartialEq, Eq, Structural)]
pub struct Point {
    pub x: i64,
    pub y: i64,
}

pub open spec fn abs(a: int) -> int {
    if a < 0 { -a } else { a }
}

/// Division rounding toward zero, as Rust's integer `/` does.
pub open spec fn trunc_div(a: int, b: int) -> int {
    if a >= 0 { a / b } else { -((-a) / b) }
}

pub open spec fn clamp(a: int, lo: int, hi: int) -> int {
    if a < lo { lo } else if a > hi { hi } else { a }
}

pub open spec fn is_sqrt_floor(n: int, r: int) -> bool {
    0 <= r && r * r <= n < (r + 1) * (r + 1)
}

/// The integer square root: the largest `r` with `r * r <= n`.
pub open spec fn sqrt_floor(n: int) -> int {
    choose|r: int| is_sqrt_floor(n, r)
}

impl Point {
    pub open spec fn in_world(self) -> bool {
        -WORLD_LIMIT <= self.x <= WORLD_LIMIT && -WORLD_LIMIT <= self.y <= WORLD_LIMIT
    }

    pub fn new(x: i64, y: i64) -> (r: Point)
        ensures
            r.x == x,
            r.y == y,
    {
        Point { x, y }
    }

    pub fn origin() -> (r: Point)
        ensures
            r.x == 0,
            r.y == 0,
    {
        Point { x: 0, y: 0 }
    }
}

/// Offsets are measured in steps times `HEADING_SCALE` before their length is
/// taken, so that the integer square root stays precise for short offsets.
pub const HEADING_SCALE: i64 = 1_048_576;

/// The vector from `from` toward `to`, scaled to length `speed` (each axis rounded
/// toward zero); the zero vector when the two points coincide.
pub open spec fn heading(from: Point, to: Point, speed: int) -> Point {
    let dx = (to.x - from.x) * HEADING_SCALE;
    let dy = (to.y - from.y) * HEADING_SCALE;
    let len = sqrt_floor(dx * dx + dy * dy);
    if len == 0 {
        Point { x: 0, y: 0 }
    } else {
        Point { x: trunc_div(dx * speed, len) as i64, y: trunc_div(dy * speed, len) as i64 }
    }
}

/// Axis-aligned overlap of two hit-boxes of side `HIT_BOX` centred on `a` and `b`.
pub open spec fn overlaps(a: Point, b: Point) -> bool {
    abs(a.x - b.x) < HIT_BOX && abs(a.y - b.y) < HIT_BOX
}

/// Where a point moving at velocity `v` (steps per second) is after `dt` microseconds,
/// held inside the world.
pub open spec fn moved_axis(p: int, v: int, dt: int) -> int {
    clamp(p + trunc_div(v * dt, ONE as int), -WORLD_LIMIT as int, WORLD_LIMIT as int)
}

pub open spec fn moved(p: Point, v: Point, dt: int) -> Point {
    Point { x: moved_axis(p.x as int, v.x as int, dt) as i64, y: moved_axis(p.y as int, v.y as int, dt) as i64 }
}

proof fn lemma_sqrt_floor_unique(n: int, r: int)
    requires
        is_sqrt_floor(n, r),
    ensures
        sqrt_floor(n) == r,
{
    let s = sqrt_floor(n);
    assert(is_sqrt_floor(n, s));
    if s < r {
        assert((s + 1) * (s + 1) <= r * r) by (nonlinear_arith)
            requires
                0 <= s < r,
        ;
    } else if r < s {
        assert((r + 1) * (r + 1) <= s * s) by (nonlinear_arith)
            requires
                0 <= r < s,
        ;
    }
}

/// The integer square root of `n`.
pub fn isqrt(n: u128) -> (r: u64)
    ensures
        r as int == sqrt_floor(n as int),
        is_sqrt_floor(n as int, r as int),
{
    let mut lo: u128 = 0;
    let mut hi: u128 = 0x1_0000_0000_0000_0000;
    assert(n < hi * hi);
    while hi - lo > 1
        invariant
            lo < hi <= 0x1_0000_0000_0000_0000u128,
            lo * lo <= n,
            n < hi * hi,
        decreases hi - lo,
    {
        let mid: u128 = lo + (hi - lo) / 2;
        assert(mid * mid < 0x1_0000_0000_0000_0000_0000_0000_0000_0000int) by (nonlinear_arith)
            requires
                mid < 0x1_0000_0000_0000_0000int,
        ;
        if mid * mid <= n {
            lo = mid;
        } else {
            hi = mid;
        }
    }
    assert(hi == lo + 1);
    proof {
        lemma_sqrt_floor_unique(n as int, lo as int);
    }
    lo as u64
}

proof fn lemma_axis_within(d: int, e: int, len: int, speed: int)
    requires
        is_sqrt_floor(d * d + e * e, len),
        len > 0,
        speed >= 0,
    ensures
        abs(trunc_div(d * speed, len)) <= speed,
{
    let a = abs(d);
    assert(a * a <= d * d + e * e) by (nonlinear_arith)
        requires
            a == abs(d),
    ;
    assert(a <= len) by (nonlinear_arith)
        requires
            a >= 0,
            len >= 0,
            a * a < (len + 1) * (len + 1),
    ;
    assert(a * speed <= len * speed) by (nonlinear_arith)
        requires
            0 <= a <= len,
            speed >= 0,
    ;
    assert((a * speed) / len <= speed) by (nonlinear_arith)
        requires
            0 <= a * speed <= len * speed,
            len > 0,
    ;
    assert(abs(trunc_div(d * speed, len)) == (a * speed) / len) by (nonlinear_arith)
        requires
            a == abs(d),
            speed >= 0,
            len > 0,
    ;
}

/// The vector from `from` toward `to` with length `speed`; see [`heading`].
pub fn heading_toward(from: Point, to: Point, speed: i64) -> (r: Point)
    requires
        from.in_world(),
        to.in_world(),
        speed >= 0,
    ensures
        r == heading(from, to, speed as int),
        abs(r.x as int) <= speed,
        abs(r.y as int) <= speed,
{
    let ox: i128 = to.x as i128 - from.x as i128;
    let oy: i128 = to.y as i128 - from.y as i128;
    assert(-0x2000_0000_0000_0000int <= ox * 1_048_576 <= 0x2000_0000_0000_0000int) by (nonlinear_arith)
        requires
            -0x200_0000_0000int <= ox <= 0x200_0000_0000int,
    ;
    assert(-0x2000_0000_0000_0000int <= oy * 1_048_576 <= 0x2000_0000_0000_0000int) by (nonlinear_arith)
        requires
            -0x200_0000_0000int <= oy <= 0x200_0000_0000int,
    ;
    let dx: i128 = ox * HEADING_SCALE as i128;
    let dy: i128 = oy * HEADING_SCALE as i128;
    assert(0 <= dx * dx <= 0x400_0000_0000_0000_0000_0000_0000_0000int) by (nonlinear_arith)
        requires
            -0x2000_0000_0000_0000int <= dx <= 0x2000_0000_0000_0000int,
    ;
    assert(0 <= dy * dy <= 0x400_0000_0000_0000_0000_0000_0000_0000int) by (nonlinear_arith)
        requires
            -0x2000_0000_0000_0000int <= dy <= 0x2000_0000_0000_0000int,
    ;
    let sq: u128 = (dx * dx + dy * dy) as u128;
    let len: u64 = isqrt(sq);
    if len == 0 {
        return Point { x: 0, y: 0 };
    }
    let ghost d = dx as int;
    let ghost e = dy as int;
    proof {
        assert(is_sqrt_floor(d * d + e * e, len as int));
        lemma_axis_within(d, e, len as int, speed as int);
        lemma_axis_within(e, d, len as int, speed as int);
        assert(-0x1000_0000_0000_0000_0000_0000_0000_0000int <= dx * (speed as int) <= 0x1000_0000_0000_0000_0000_0000_0000_0000int) by (nonlinear_arith)
            requires
                -0x2000_0000_0000_0000int <= dx <= 0x2000_0000_0000_0000int,
                0 <= speed <= 0x8000_0000_0000_0000int,
        ;
        assert(-0x1000_0000_0000_0000_0000_0000_0000_0000int <= dy * (speed as int) <= 0x1000_0000_0000_0000_0000_0000_0000_0000int) by (nonlinear_arith)
            requires
                -0x2000_0000_0000_0000int <= dy <= 0x2000_0000_0000_0000int,
                0 <= speed <= 0x8000_0000_0000_0000int,
        ;
    }
    let vx: i128 = div_toward_zero(dx * speed as i128, len as i128);
    let vy: i128 = div_toward_zero(dy * speed as i128, len as i128);
    Point { x: vx as i64, y: vy as i64 }
}

/// Whether the hit-boxes centred on `a` and `b` overlap; see [`overlaps`].
pub fn boxes_overlap(a: Point, b: Point) -> (r: bool)
    ensures
        r == overlaps(a, b),
{
    let dx: i128 = a.x as i128 - b.x as i128;
    let dy: i128 = a.y as i128 - b.y as i128;
    let ax: i128 = if dx < 0 { -dx } else { dx };
    let ay: i128 = if dy < 0 { -dy } else { dy };
    ax < HIT_BOX as i128 && ay < HIT_BOX as i128
}

/// The playfield rectangle. Projectiles marked for it are retired once they are
/// outside the closed rectangle.
#[derive(Clone, Copy, Debug, PartialEq, Eq, Structural)]
pub struct Bounds {
    pub left: i64,
    pub right: i64,
    pub bottom: i64,
    pub top: i64,
}

impl Bounds {
    pub open spec fn wf(self) -> bool {
        &&& -WORLD_LIMIT <= self.left < self.right <= WORLD_LIMIT
        &&& -WORLD_LIMIT <= self.bottom < self.top <= WORLD_LIMIT
    }

    /// `p` lies in the closed rectangle `[left, right] x [bottom, top]`.
    pub open spec fn holds(self, p: Point) -> bool {
        self.left <= p.x <= self.right && self.bottom <= p.y <= self.top
    }

    /// The rectangle `[-half_width, half_width] x [-half_height, half_height]`.
    pub fn centered(half_width: i64, half_height: i64) -> (r: Bounds)
        requires
            0 < half_width <= WORLD_LIMIT,
            0 < half_height <= WORLD_LIMIT,
        ensures
            r.wf(),
            r.left == -half_width,
            r.right == half_width,
            r.bottom == -half_height,
            r.top == half_height,
    {
        Bounds { left: -half_width, right: half_width, bottom: -half_height, top: half_height }
    }

    pub fn contains(&self, p: Point) -> (r: bool)
        ensures
            r == self.holds(p),
    {
        self.left <= p.x && p.x <= self.right && self.bottom <= p.y && p.y <= self.top
    }
}

/// One axis of [`moved`].
fn move_axis(p: i64, v: i64, dt: u32) -> (r: i64)
    ensures
        r == moved_axis(p as int, v as int, dt as int),
{
    assert(-0x8000_0000_0000_0000_0000_0000int <= (v as int) * (dt as int) <= 0x8000_0000_0000_0000_0000_0000int) by (nonlinear_arith)
        requires
            -0x8000_0000_0000_0000int <= v <= 0x8000_0000_0000_0000int,
            0 <= dt <= 0x1_0000_0000int,
    ;
    let step: i128 = div_toward_zero(v as i128 * dt as i128, ONE as i128);
    let q: i128 = p as i128 + step;
    if q < -(WORLD_LIMIT as i128) {
        -WORLD_LIMIT
    } else if q > WORLD_LIMIT as i128 {
        WORLD_LIMIT
    } else {
        q as i64
    }
}

/// Where `p` is after moving at velocity `v` (steps per second) for `dt` microseconds.
pub fn move_point(p: Point, v: Point, dt: u32) -> (r: Point)
    ensures
        r == moved(p, v, dt as int),
        r.in_world(),
{
    Point { x: move_axis(p.x, v.x, dt), y: move_axis(p.y, v.y, dt) }
}

/// `a / b` rounded toward zero.
pub(crate) fn div_toward_zero(a: i128, b: i128) -> (r: i128)
    requires
        b > 0,
        a > i128::MIN,
    ensures
        r == trunc_div(a as int, b as int),
{
    if a >= 0 {
        ((a as u128) / (b as u128)) as i128
    } else {
        let q: u128 = ((-a) as u128) / (b as u128);
        -(q as i128)
    }
}

} // verus!
