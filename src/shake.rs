//! Procedural camera shake driven by a decaying magnitude.
use vstd::prelude::*;
use crate::geometry::{abs, div_toward_zero, trunc_div, Point, ONE};
use crate::random::random_in;

verus! {

/// Below this magnitude (one step, 1e-6 world units) the shake is settled.
pub const SHAKE_EPSILON: u64 = 1;

/// Magnitude added by every cast (20 world units).
pub const SHAKE_PER_CAST: u64 = 20_000_000;

/// No camera or target offset ever leaves `[-MAX_SHAKE_OFFSET, MAX_SHAKE_OFFSET]`.
pub const MAX_SHAKE_OFFSET: i64 = 64_000_000;

/// Per tick the camera covers `LERP_KEEP / LERP_PARTS` of the distance to its
/// target, i.e. a lerp factor of 0.1.
pub const LERP_KEEP: i64 = 9;

pub const LERP_PARTS: i64 = 10;

/// State of the camera shake. The magnitude is divided by the decay factor
/// `decay_num / decay_den` (greater than one) on every tick.
#[derive(Clone, Copy, Debug, PartialEq, Eq, Structural)]
pub struct ScreenShake {
    pub magnitude: u64,
    pub decay_num: u64,
    pub decay_den: u64,
    pub target_offset: Point,
    pub camera_offset: Point,
}

pub open spec fn offset_ok(p: Point) -> bool {
    -MAX_SHAKE_OFFSET <= p.x <= MAX_SHAKE_OFFSET && -MAX_SHAKE_OFFSET <= p.y <= MAX_SHAKE_OFFSET
}

/// `floor(log2(n))` for `n >= 1`, and 0 below.
pub open spec fn log2_floor(n: nat) -> nat
    decreases n,
{
    if n < 2 { 0 } else { 1 + log2_floor(n / 2) }
}

pub open spec fn pow2(k: nat) -> nat
    decreases k,
{
    if k == 0 { 1 } else { 2 * pow2((k - 1) as nat) }
}

/// Binary digits of the fractional part of the shake reach.
pub const LOG2_FRACTION_BITS: u32 = 16;

/// `2^LOG2_FRACTION_BITS`.
pub const LOG2_FRACTION_ONE: u64 = 65_536;

/// Fixed-point one of a log2 mantissa (32 binary digits).
pub const MANTISSA_ONE: u128 = 0x1_0000_0000;

/// The first `k` binary digits of `log2(y / MANTISSA_ONE)` for a mantissa `y` in
/// `[MANTISSA_ONE, 2 * MANTISSA_ONE)`, as an integer below `2^k`. Each digit comes
/// from squaring the mantissa (which doubles its logarithm) rounded down to 32
/// binary digits: the digit is 1, and the square is halved, when it reaches 2.
pub open spec fn log2_fraction(y: int, k: nat) -> int
    decreases k,
{
    if k == 0 {
        0
    } else {
        let sq = y * y / (MANTISSA_ONE as int);
        if sq >= 2 * MANTISSA_ONE {
            pow2((k - 1) as nat) + log2_fraction(sq / 2, (k - 1) as nat)
        } else {
            log2_fraction(sq, (k - 1) as nat)
        }
    }
}

/// `magnitude` (in steps, at least one world unit) divided by the largest power of
/// two world units below it: a value in `[1, 2)`, scaled by `MANTISSA_ONE`.
pub open spec fn log2_mantissa(magnitude: int) -> int {
    magnitude * MANTISSA_ONE / (ONE * pow2(log2_floor((magnitude / (ONE as int)) as nat)))
}

/// How far a new target may lie on each axis, in steps: `log2(max(m, 1))` for the
/// magnitude `m = magnitude / ONE` in world units, to `LOG2_FRACTION_BITS` binary
/// digits (integer part exact, fraction by [`log2_fraction`]), rounded down to a step.
pub open spec fn shake_reach(magnitude: int) -> int {
    if magnitude < ONE {
        0
    } else {
        let n = log2_floor((magnitude / (ONE as int)) as nat);
        (n * LOG2_FRACTION_ONE + log2_fraction(log2_mantissa(magnitude), LOG2_FRACTION_BITS as nat)) * ONE
            / (LOG2_FRACTION_ONE as int)
    }
}

/// One axis of a new target: `2 * (u - 0.5) * reach` for the uniform draw
/// `u = draw / ONE`, in steps, rounded toward zero.
pub open spec fn retarget_axis(draw: int, magnitude: int) -> int {
    trunc_div((2 * draw - ONE) * shake_reach(magnitude), ONE as int)
}

pub open spec fn dist2(d: Point) -> int {
    d.x * d.x + d.y * d.y
}

/// A uniform draw `u = draw / ONE` asks for a new target when it exceeds
/// `|d|^2 / (1 + |d|^2)`, `d` in world units; compared exactly.
pub open spec fn wants_retarget(d: Point, draw: int) -> bool {
    draw * (ONE * ONE + dist2(d)) > dist2(d) * ONE
}

/// `magnitude / (num / den)`, rounded down.
pub open spec fn decayed(magnitude: int, num: int, den: int) -> int {
    (magnitude * den) / num
}

/// Magnitude after one tick: clamped to zero once settled, else decayed.
pub open spec fn next_magnitude(magnitude: int, num: int, den: int) -> int {
    if magnitude < SHAKE_EPSILON { 0 } else { decayed(magnitude, num, den) }
}

/// Magnitude after `k` ticks without a cast.
pub open spec fn magnitude_after(magnitude: int, num: int, den: int, k: nat) -> int
    decreases k,
{
    if k == 0 {
        magnitude
    } else {
        next_magnitude(magnitude_after(magnitude, num, den, (k - 1) as nat), num, den)
    }
}

pub open spec fn lerp_axis(c: int, t: int) -> int {
    c + trunc_div((t - c) * LERP_KEEP, LERP_PARTS as int)
}

/// The shake after one tick, given the three uniform draws (each `draw / ONE` in
/// `[0, 1)`) used to decide on and to place a new target.
pub open spec fn after_shake_tick(s: ScreenShake, keep_draw: int, x_draw: int, y_draw: int) -> ScreenShake {
    if s.magnitude < SHAKE_EPSILON {
        ScreenShake { magnitude: 0, ..s }
    } else {
        let d = Point {
            x: (s.target_offset.x - s.camera_offset.x) as i64,
            y: (s.target_offset.y - s.camera_offset.y) as i64,
        };
        ScreenShake {
            magnitude: decayed(s.magnitude as int, s.decay_num as int, s.decay_den as int) as u64,
            camera_offset: Point {
                x: lerp_axis(s.camera_offset.x as int, s.target_offset.x as int) as i64,
                y: lerp_axis(s.camera_offset.y as int, s.target_offset.y as int) as i64,
            },
            target_offset: if wants_retarget(d, keep_draw) {
                Point {
                    x: retarget_axis(x_draw, s.magnitude as int) as i64,
                    y: retarget_axis(y_draw, s.magnitude as int) as i64,
                }
            } else {
                s.target_offset
            },
            ..s
        }
    }
}

proof fn lemma_log2_below(n: nat, k: nat)
    requires
        n < pow2(k),
    ensures
        log2_floor(n) < k || n == 0,
        n >= 1 ==> log2_floor(n) < k,
    decreases k,
{
    if n >= 2 {
        assert(k >= 1) by {
            if k == 0 {
                assert(pow2(0) == 1);
            }
        }
        assert(n / 2 < pow2((k - 1) as nat));
        lemma_log2_below(n / 2, (k - 1) as nat);
    }
}

proof fn lemma_pow2_45()
    ensures
        pow2(45) == 0x2000_0000_0000nat,
{
    reveal_with_fuel(pow2, 46);
}

/// `log2_floor(n)`.
fn log2_of(n: u64) -> (r: u32)
    requires
        log2_floor(n as nat) < 45,
    ensures
        r == log2_floor(n as nat),
{
    let mut v: u64 = n;
    let mut r: u32 = 0;
    while v >= 2
        invariant
            r + log2_floor(v as nat) == log2_floor(n as nat),
            log2_floor(n as nat) < 45,
        decreases v,
    {
        v = v / 2;
        r = r + 1;
    }
    r
}

proof fn lemma_pow2_step(k: nat)
    requires
        k >= 1,
    ensures
        pow2(k) == 2 * pow2((k - 1) as nat),
{
}

proof fn lemma_pow2_mono(a: nat, b: nat)
    requires
        a <= b,
    ensures
        1 <= pow2(a) <= pow2(b),
    decreases b,
{
    if b > 0 {
        if a < b {
            lemma_pow2_mono(a, (b - 1) as nat);
        } else {
            lemma_pow2_mono((b - 1) as nat, (b - 1) as nat);
        }
    }
}

proof fn lemma_pow2_16_44()
    ensures
        pow2(16) == 65_536nat,
        pow2(44) == 0x1000_0000_0000nat,
{
    reveal_with_fuel(pow2, 45);
}

/// `w` lies between the power of two of its log2 and the next one.
proof fn lemma_log2_brackets(w: nat)
    requires
        w >= 1,
    ensures
        pow2(log2_floor(w)) <= w < pow2(log2_floor(w) + 1),
    decreases w,
{
    if w >= 2 {
        lemma_log2_brackets(w / 2);
        let n = log2_floor(w / 2);
        assert(log2_floor(w) == n + 1);
        assert(pow2(n + 1) == 2 * pow2(n));
        assert(pow2(n + 2) == 2 * pow2(n + 1));
    } else {
        assert(pow2(1) == 2) by {
            reveal_with_fuel(pow2, 2);
        }
    }
}

/// `2^n`.
fn pow2_of(n: u32) -> (r: u128)
    requires
        n <= 44,
    ensures
        r == pow2(n as nat),
        1 <= r <= 0x1000_0000_0000,
{
    proof {
        lemma_pow2_16_44();
    }
    let mut r: u128 = 1;
    let mut i: u32 = 0;
    while i < n
        invariant
            i <= n <= 44,
            r == pow2(i as nat),
            pow2(44) == 0x1000_0000_0000nat,
        decreases n - i,
    {
        proof {
            lemma_pow2_mono((i + 1) as nat, 44);
            lemma_pow2_step((i + 1) as nat);
        }
        r = r * 2;
        i = i + 1;
    }
    proof {
        lemma_pow2_mono(n as nat, 44);
    }
    r
}

/// `log2_fraction(y, LOG2_FRACTION_BITS)`.
fn fraction_bits(y: u128) -> (r: u64)
    requires
        y < 2 * MANTISSA_ONE,
    ensures
        r == log2_fraction(y as int, LOG2_FRACTION_BITS as nat),
        r < LOG2_FRACTION_ONE,
{
    proof {
        lemma_pow2_16_44();
    }
    let mut v: u128 = y;
    let mut bits: u64 = 0;
    let mut i: u32 = 0;
    while i < LOG2_FRACTION_BITS
        invariant
            i <= LOG2_FRACTION_BITS,
            v < 2 * MANTISSA_ONE,
            bits < pow2(i as nat),
            pow2(16) == 65_536nat,
            bits * pow2((LOG2_FRACTION_BITS - i) as nat) + log2_fraction(v as int, (LOG2_FRACTION_BITS - i) as nat)
                == log2_fraction(y as int, LOG2_FRACTION_BITS as nat),
        decreases LOG2_FRACTION_BITS - i,
    {
        let ghost k: nat = (LOG2_FRACTION_BITS - i) as nat;
        let ghost p: int = pow2((k - 1) as nat) as int;
        proof {
            lemma_pow2_step(k);
            lemma_pow2_step((i + 1) as nat);
            lemma_pow2_mono((i + 1) as nat, 16);
        }
        assert(v * v < 4 * MANTISSA_ONE * MANTISSA_ONE) by (nonlinear_arith)
            requires
                v < 2 * MANTISSA_ONE,
        ;
        let sq: u128 = v * v / MANTISSA_ONE;
        if sq >= 2 * MANTISSA_ONE {
            assert((2 * bits + 1) * p == bits * (2 * p) + p) by (nonlinear_arith);
            v = sq / 2;
            bits = bits * 2 + 1;
        } else {
            assert((2 * bits) * p == bits * (2 * p)) by (nonlinear_arith);
            v = sq;
            bits = bits * 2;
        }
        i = i + 1;
    }
    assert(i == LOG2_FRACTION_BITS);
    assert(pow2(0) == 1);
    assert(bits * pow2(0) == bits);
    assert(log2_fraction(v as int, 0) == 0);
    bits
}

/// The shake reach of `magnitude`, below 45 world units.
fn reach_of(magnitude: u64) -> (r: i64)
    ensures
        r == shake_reach(magnitude as int),
        0 <= r < 45 * ONE,
{
    if magnitude < ONE as u64 {
        return 0;
    }
    let whole: u64 = magnitude / (ONE as u64);
    assert(1 <= whole <= 18_446_744_073_709int) by (nonlinear_arith)
        requires
            1_000_000 <= magnitude <= 0xFFFF_FFFF_FFFF_FFFFint,
            whole == magnitude as int / 1_000_000int,
    ;
    proof {
        lemma_pow2_45();
        lemma_log2_below(whole as nat, 45);
        lemma_log2_brackets(whole as nat);
    }
    let n: u32 = log2_of(whole);
    let scale: u128 = pow2_of(n);
    let den: u128 = ONE as u128 * scale;
    assert(magnitude * MANTISSA_ONE < 2 * MANTISSA_ONE * den) by (nonlinear_arith)
        requires
            whole == magnitude as int / 1_000_000int,
            whole < 2 * scale,
            den == 1_000_000 * scale,
            magnitude >= 0,
            MANTISSA_ONE > 0,
    ;
    let y: u128 = magnitude as u128 * MANTISSA_ONE / den;
    assert(y < 2 * MANTISSA_ONE) by (nonlinear_arith)
        requires
            y == (magnitude * MANTISSA_ONE) / (den as int),
            magnitude * MANTISSA_ONE < 2 * MANTISSA_ONE * den,
            den > 0,
    ;
    let bits: u64 = fraction_bits(y);
    let total: u64 = n as u64 * LOG2_FRACTION_ONE + bits;
    assert(total * ONE < 45 * LOG2_FRACTION_ONE * ONE) by (nonlinear_arith)
        requires
            total == n * 65_536 + bits,
            n <= 44,
            bits < 65_536,
    ;
    assert((total * ONE) / 65_536int < 45 * ONE) by (nonlinear_arith)
        requires
            0 <= total * ONE < 45 * 65_536 * ONE,
    ;
    ((total * ONE as u64) / LOG2_FRACTION_ONE) as i64
}

/// `trunc_div((2 * draw - ONE) * reach, ONE)`, which lies within `reach` of zero.
fn retarget_toward(draw: i64, reach: i64) -> (r: i64)
    requires
        0 <= draw < ONE,
        0 <= reach < 45 * ONE,
    ensures
        r == trunc_div((2 * draw - ONE) * reach, ONE as int),
        -reach <= r <= reach,
{
    let a: i64 = 2 * draw - ONE;
    assert(-(ONE * reach) <= a * reach <= ONE * reach) by (nonlinear_arith)
        requires
            -ONE <= a <= ONE,
            reach >= 0,
    ;
    assert(-45_000_000_000_000int <= a * reach <= 45_000_000_000_000int) by (nonlinear_arith)
        requires
            -(ONE * reach) <= a * reach <= ONE * reach,
            0 <= reach < 45 * ONE,
    ;
    let q: i128 = div_toward_zero((a * reach) as i128, ONE as i128);
    assert(abs(trunc_div(a * reach, ONE as int)) <= reach) by (nonlinear_arith)
        requires
            -(ONE * reach) <= a * reach <= ONE * reach,
            reach >= 0,
    ;
    q as i64
}

proof fn lemma_lerp_between(c: int, t: int)
    ensures
        c <= t ==> c <= lerp_axis(c, t) <= t,
        t <= c ==> t <= lerp_axis(c, t) <= c,
{
    let d = t - c;
    if d >= 0 {
        assert(0 <= (d * 9) / 10 <= d) by (nonlinear_arith)
            requires
                d >= 0,
        ;
    } else {
        assert(0 <= (-(d * 9)) / 10 <= -d) by (nonlinear_arith)
            requires
                d < 0,
        ;
    }
}

proof fn lemma_decay_shrinks(m: int, num: int, den: int)
    requires
        m >= 1,
        num > den > 0,
    ensures
        0 <= decayed(m, num, den) <= m - 1,
{
    assert(m * den <= m * num - m) by (nonlinear_arith)
        requires
            m >= 1,
            num > den > 0,
    ;
    assert(0 <= (m * den) / num <= m - 1) by (nonlinear_arith)
        requires
            m >= 1,
            num > den > 0,
            m * den <= m * num - m,
    ;
}

impl ScreenShake {
    pub open spec fn wf(self) -> bool {
        &&& self.decay_num > self.decay_den > 0
        &&& offset_ok(self.target_offset)
        &&& offset_ok(self.camera_offset)
    }

    /// A settled shake with decay factor `decay_num / decay_den`.
    pub fn with_decay(decay_num: u64, decay_den: u64) -> (r: ScreenShake)
        requires
            decay_num > decay_den > 0,
        ensures
            r.wf(),
            r.magnitude == 0,
            r.decay_num == decay_num,
            r.decay_den == decay_den,
            r.target_offset == (Point { x: 0, y: 0 }),
            r.camera_offset == (Point { x: 0, y: 0 }),
    {
        ScreenShake {
            magnitude: 0,
            decay_num,
            decay_den,
            target_offset: Point::origin(),
            camera_offset: Point::origin(),
        }
    }

    pub open spec fn new_spec() -> ScreenShake {
        ScreenShake {
            magnitude: 0,
            decay_num: 3,
            decay_den: 2,
            target_offset: Point { x: 0, y: 0 },
            camera_offset: Point { x: 0, y: 0 },
        }
    }

    /// A settled shake with decay factor 1.5.
    pub fn new() -> (r: ScreenShake)
        ensures
            r.wf(),
            r == ScreenShake::new_spec(),
    {
        ScreenShake::with_decay(3, 2)
    }

    /// Adds `SHAKE_PER_CAST` to the magnitude, held at `u64::MAX`.
    pub fn kick(&mut self)
        ensures
            final(self).magnitude == if old(self).magnitude + SHAKE_PER_CAST > u64::MAX {
                u64::MAX as int
            } else {
                old(self).magnitude + SHAKE_PER_CAST
            },
            final(self).decay_num == old(self).decay_num,
            final(self).decay_den == old(self).decay_den,
            final(self).target_offset == old(self).target_offset,
            final(self).camera_offset == old(self).camera_offset,
    {
        if self.magnitude > u64::MAX - SHAKE_PER_CAST {
            self.magnitude = u64::MAX;
        } else {
            self.magnitude = self.magnitude + SHAKE_PER_CAST;
        }
    }

    /// One tick, given three uniform draws in `[0, ONE)`; see [`after_shake_tick`].
    pub fn step_with(&mut self, keep_draw: i64, x_draw: i64, y_draw: i64)
        requires
            old(self).wf(),
            0 <= keep_draw < ONE,
            0 <= x_draw < ONE,
            0 <= y_draw < ONE,
        ensures
            final(self).wf(),
            *final(self) == after_shake_tick(*old(self), keep_draw as int, x_draw as int, y_draw as int),
    {
        if self.magnitude < SHAKE_EPSILON {
            self.magnitude = 0;
            return;
        }
        let c: Point = self.camera_offset;
        let t: Point = self.target_offset;
        let dx: i64 = t.x - c.x;
        let dy: i64 = t.y - c.y;
        assert(0 <= dx * dx <= 128_000_000int * 128_000_000int) by (nonlinear_arith)
            requires
                -128_000_000 <= dx <= 128_000_000,
        ;
        assert(0 <= dy * dy <= 128_000_000int * 128_000_000int) by (nonlinear_arith)
            requires
                -128_000_000 <= dy <= 128_000_000,
        ;
        let d2: i128 = dx as i128 * dx as i128 + dy as i128 * dy as i128;
        let one: i128 = ONE as i128;
        assert(0 <= keep_draw * (one * one + d2) <= 1_000_000int * (1_000_000_000_000int + 2 * 128_000_000int * 128_000_000int)) by (nonlinear_arith)
            requires
                0 <= keep_draw < 1_000_000,
                one == 1_000_000,
                0 <= d2 <= 2 * 128_000_000int * 128_000_000int,
        ;
        let retarget: bool = keep_draw as i128 * (one * one + d2) > d2 * one;
        proof {
            lemma_lerp_between(c.x as int, t.x as int);
            lemma_lerp_between(c.y as int, t.y as int);
        }
        let cx: i64 = c.x + ((dx * LERP_KEEP) / LERP_PARTS);
        let cy: i64 = c.y + ((dy * LERP_KEEP) / LERP_PARTS);
        self.camera_offset = Point { x: cx, y: cy };
        if retarget {
            let reach: i64 = reach_of(self.magnitude);
            let tx: i64 = retarget_toward(x_draw, reach);
            let ty: i64 = retarget_toward(y_draw, reach);
            self.target_offset = Point { x: tx, y: ty };
        }
        proof {
            lemma_decay_shrinks(self.magnitude as int, self.decay_num as int, self.decay_den as int);
        }
        assert(self.magnitude * self.decay_den <= 0xFFFF_FFFF_FFFF_FFFFint * 0xFFFF_FFFF_FFFF_FFFFint) by (nonlinear_arith)
            requires
                self.magnitude <= 0xFFFF_FFFF_FFFF_FFFFint,
                0 <= self.decay_den <= 0xFFFF_FFFF_FFFF_FFFFint,
        ;
        self.magnitude = ((self.magnitude as u128 * self.decay_den as u128) / self.decay_num as u128) as u64;
    }

    /// One tick of the shake with fresh uniform draws: the camera closes in on its
    /// target, a new target may be picked, and the magnitude decays (or is clamped
    /// to zero once below `SHAKE_EPSILON`).
    pub fn apply_screen_shake(&mut self)
        requires
            old(self).wf(),
        ensures
            final(self).wf(),
            (exists|k: int, x: int, y: int|
                0 <= k < ONE && 0 <= x < ONE && 0 <= y < ONE
                    && *final(self) == after_shake_tick(*old(self), k, x, y)),
    {
        let keep_draw: i64 = random_in(0, ONE);
        let x_draw: i64 = random_in(0, ONE);
        let y_draw: i64 = random_in(0, ONE);
        self.step_with(keep_draw, x_draw, y_draw);
    }
}

/// Without casts the magnitude strictly decreases on every tick while it is not
/// settled, and after at most `magnitude` ticks it is exactly zero, where it stays.
pub proof fn lemma_shake_settles(magnitude: int, num: int, den: int, k: nat)
    requires
        magnitude >= 0,
        num > den > 0,
    ensures
        magnitude_after(magnitude, num, den, k) >= SHAKE_EPSILON ==> magnitude_after(
            magnitude,
            num,
            den,
            k + 1,
        ) < magnitude_after(magnitude, num, den, k),
        0 <= magnitude_after(magnitude, num, den, k) <= if magnitude - k < 0 { 0 } else { magnitude - k },
        k >= magnitude ==> magnitude_after(magnitude, num, den, k) == 0,
    decreases k,
{
    if k > 0 {
        lemma_shake_settles(magnitude, num, den, (k - 1) as nat);
        let p = magnitude_after(magnitude, num, den, (k - 1) as nat);
        if p >= SHAKE_EPSILON {
            lemma_decay_shrinks(p, num, den);
        }
    }
    let q = magnitude_after(magnitude, num, den, k);
    if q >= SHAKE_EPSILON {
        lemma_decay_shrinks(q, num, den);
    }
}

} // verus!
