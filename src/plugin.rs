//! Emotes on screen: each decoded emote with its motion and its current
//! frame, and the bounded queue that advances them once per rendered frame.

use vstd::prelude::*;
use crate::decode::{decode_frames, decoded, lemma_decoded_nonempty, Frame};
use crate::effects::{
    small, EmoteEffect, GravityEffect, InchWormEffect, Placement, Point, SlideUpEffect,
    MAX_STRIDE,
};

verus! {

/// Downward acceleration of a falling emote, in pixels per second squared.
pub const GRAVITY: i64 = 1800;

/// Share of its speed a falling emote keeps at a bounce, in thousandths.
pub const BOUNCE: u32 = 600;

/// Length in pixels of a crawling emote's stride: its 9 points, 56 apart.
pub const WORM_STRIDE: i64 = 504;

/// An emote as it was read from chat and fetched: its id, its name and its
/// encoded image.
#[derive(Debug, Clone)]
pub struct EmoteData {
    pub id: String,
    pub name: String,
    pub img: Vec<u8>,
}

/// An emote on screen: its frames, the frame shown now and for how long it
/// has been, and the motion it follows once admitted.
#[derive(Debug)]
pub struct EmoteOBS {
    pub name: String,
    pub frames: Vec<Frame>,
    pub frame: usize,
    /// Microseconds the current frame has been shown.
    pub frame_time: u64,
    pub effect: Option<EmoteEffect>,
}

/// Whether a frame shown `t` microseconds has been shown longer than its delay.
pub open spec fn delay_passed(f: Frame, t: int) -> bool {
    t * f.delay_denom_ms > f.delay_numer_ms * 1000
}

impl EmoteOBS {
    pub open spec fn wf(&self) -> bool {
        &&& self.frame < self.frames@.len()
        &&& forall|i: int| 0 <= i < self.frames@.len() ==> (#[trigger] self.frames@[i]).wf()
        &&& self.effect matches Some(e) ==> e.wf()
    }

    pub open spec fn spec_is_alive(&self) -> bool {
        self.effect matches Some(e) && e.spec_is_alive()
    }

    /// The frame index and frame time after `dt` microseconds: a still
    /// emote keeps its one frame; an animated one moves to the next frame,
    /// round to the first, once the current one was shown longer than its
    /// delay.
    pub open spec fn next_frame(&self, dt: u64) -> (usize, u64) {
        if self.frames@.len() < 2 {
            (self.frame, self.frame_time)
        } else {
            let t = if self.frame_time + dt > u64::MAX {
                u64::MAX as int
            } else {
                self.frame_time + dt
            };
            if delay_passed(self.frames@[self.frame as int], t) {
                (((self.frame + 1) % (self.frames@.len() as int)) as usize, 0u64)
            } else {
                (self.frame, t as u64)
            }
        }
    }

    /// Whether `n` is the emote `o` advanced by `dt` microseconds.
    pub open spec fn advanced(o: EmoteOBS, n: EmoteOBS, dt: u64) -> bool {
        &&& n.name == o.name
        &&& n.frames == o.frames
        &&& (n.frame, n.frame_time) == o.next_frame(dt)
        &&& match (o.effect, n.effect) {
            (None, None) => true,
            (Some(a), Some(b)) => EmoteEffect::advanced(a, b, dt),
            _ => false,
        }
    }

    /// Whether the emote still runs after `dt` more microseconds.
    pub open spec fn survives(&self, dt: u64) -> bool {
        self.effect matches Some(e) && e.survives(dt)
    }

    /// Decodes a fetched emote; where it gives no frames the result has none,
    /// and it cannot be admitted.
    pub fn from(value: EmoteData) -> (r: EmoteOBS)
        ensures
            r.name@ == value.name@,
            match decoded(value.img@) {
                None => r.frames@.len() == 0,
                Some(fs) => r.frames@.map_values(|f: Frame| f.view()) == fs,
            },
            r.frame == 0 && r.frame_time == 0 && r.effect is None,
            r.frames@.len() > 0 ==> r.wf(),
            forall|i: int| 0 <= i < r.frames@.len() ==> (#[trigger] r.frames@[i]).wf(),
    {
        let frames = match decode_frames(value.img.as_slice()) {
            Ok(v) => v,
            Err(_) => Vec::new(),
        };
        EmoteOBS { name: value.name, frames, frame: 0, frame_time: 0, effect: None }
    }

    /// Whether the emote has a motion that still runs.
    pub fn is_alive(&self) -> (r: bool)
        ensures
            r == self.spec_is_alive(),
    {
        match &self.effect {
            None => false,
            Some(effect) => effect.is_alive(),
        }
    }

    pub fn current_frame(&self) -> (r: &Frame)
        requires
            self.wf(),
        ensures
            *r == self.frames@[self.frame as int],
    {
        &self.frames[self.frame]
    }

    /// The delay of the current frame, as numerator and denominator in
    /// milliseconds.
    pub fn current_delay(&self) -> (r: (u32, u32))
        requires
            self.wf(),
        ensures
            r == (self.frames@[self.frame as int].delay_numer_ms, self.frames@[
                self.frame as int
            ].delay_denom_ms),
    {
        let f = &self.frames[self.frame];
        (f.delay_numer_ms, f.delay_denom_ms)
    }

    /// Advances the motion and the animation by `dt` microseconds.
    pub fn update(&mut self, dt: u64)
        requires
            old(self).wf(),
        ensures
            final(self).wf(),
            EmoteOBS::advanced(*old(self), *final(self), dt),
            final(self).spec_is_alive() == old(self).survives(dt),
    {
        match &mut self.effect {
            None => {},
            Some(effect) => {
                effect.update(dt);
            },
        }
        proof {
            lemma_effect_survives(old(self).effect, self.effect, dt);
        }
        if self.frames.len() < 2 {
            return;
        }
        let t = self.frame_time.saturating_add(dt);
        let f = &self.frames[self.frame];
        assert((t as u128) * (f.delay_denom_ms as u128) <= 0xffff_ffff_ffff_ffffu128 * 0xffff_ffffu128)
            by (nonlinear_arith)
            requires t <= 0xffff_ffff_ffff_ffffu64, f.delay_denom_ms <= 0xffff_ffffu32;
        if (t as u128) * (f.delay_denom_ms as u128) > (f.delay_numer_ms as u128) * 1000 {
            self.frame_time = 0;
            self.frame = (self.frame + 1) % self.frames.len();
        } else {
            self.frame_time = t;
        }
    }
}

proof fn lemma_effect_survives(o: Option<EmoteEffect>, n: Option<EmoteEffect>, dt: u64)
    requires
        match (o, n) {
            (None, None) => true,
            (Some(a), Some(b)) => EmoteEffect::advanced(a, b, dt),
            _ => false,
        },
    ensures
        (n matches Some(e) && e.spec_is_alive()) == (o matches Some(e) && e.survives(dt)),
{
    match (o, n) {
        (Some(a), Some(b)) => {
            EmoteEffect::lemma_survives(a, b, dt);
        },
        _ => {},
    }
}

/// Whether `n` is the emote `o` with its motion on a screen of `w` by `h`
/// pixels, all else kept.
pub open spec fn resized_emote(o: EmoteOBS, n: EmoteOBS, w: u32, h: u32) -> bool {
    &&& n.name == o.name
    &&& n.frames == o.frames
    &&& n.frame == o.frame && n.frame_time == o.frame_time
    &&& match (o.effect, n.effect) {
        (Some(a), Some(b)) => EmoteEffect::resized(a, b, w, h),
        (None, None) => true,
        _ => false,
    }
}

/// The values drawn at random for an emote's motion.
#[derive(Debug, Clone, Copy)]
pub struct EffectDraws {
    /// 1 to 10 slides, 11 to 30 crawls, 31 to 100 falls.
    pub pick: u32,
    /// Start of a fall, in thousandths of the screen width.
    pub x_permille: u32,
    /// Horizontal speed of a fall, in thousandths of the screen width per second.
    pub vx_permille: i32,
    /// Microseconds a fall lasts.
    pub life_us: u64,
    /// Left edge of a slide, in thousandths of the screen width.
    pub slide_x_permille: u32,
    /// Stride of a crawl, in pixels.
    pub worm_step: Point,
}

impl EffectDraws {
    pub open spec fn wf(&self) -> bool {
        &&& self.x_permille <= 1000
        &&& -1000 <= self.vx_permille <= 1000
        &&& self.slide_x_permille <= 1000
        &&& small(self.worm_step, MAX_STRIDE as int)
    }
}

/// The motion for an emote of `ew` by `eh` pixels on a screen of `w` by `h`.
pub fn choose_effect(d: EffectDraws, w: u32, h: u32, ew: u32, eh: u32) -> (r: EmoteEffect)
    requires
        d.wf(),
    ensures
        r.wf(),
        r.spec_is_alive() || (r is Gravity && d.life_us == 0),
        1 <= d.pick <= 10 ==> r == EmoteEffect::SlideUp(
            SlideUpEffect {
                screen_w: w,
                screen_h: h,
                emote_w: ew,
                emote_h: eh,
                elapsed: 0,
                x: (w * d.slide_x_permille / 1000) as i64,
            },
        ),
        11 <= d.pick <= 30 ==> r is InchWorm && ({
            let c = r->InchWorm_0;
            &&& c.screen_w == w && c.screen_h == h && c.emote_w == ew && c.emote_h == eh
            &&& c.segments@ == Seq::new(9, |i: int| Point { x: 0, y: 0 })
            &&& c.step == d.worm_step && c.target == d.worm_step
            &&& c.frame_time == 0 && c.life_counter == 0 && c.move_head
        }),
        !(1 <= d.pick <= 30) ==> r == EmoteEffect::Gravity(
            GravityEffect {
                screen_w: w,
                screen_h: h,
                emote_w: ew,
                emote_h: eh,
                life_total: d.life_us,
                life_lived: 0,
                g: GRAVITY,
                bounce: BOUNCE,
                pos: Point { x: (w * d.x_permille * 1000) as i64, y: 0 },
                vel: Point { x: (w * d.vx_permille * 1000) as i64, y: 0 },
            },
        ),
{
    if 1 <= d.pick && d.pick <= 10 {
        EmoteEffect::SlideUp(SlideUpEffect::init(w, h, ew, eh, d.slide_x_permille))
    } else if 11 <= d.pick && d.pick <= 30 {
        EmoteEffect::InchWorm(InchWormEffect::init(w, h, ew, eh, d.worm_step))
    } else {
        EmoteEffect::Gravity(
            GravityEffect::init(w, h, ew, eh, GRAVITY, BOUNCE, d.x_permille, d.vx_permille, d.life_us),
        )
    }
}

/// Relies on `rand::random_range`, which draws uniformly from `lo..hi` with
/// the thread's generator.
#[verifier::external_body]
fn random_below(lo: u64, hi: u64) -> (r: u64)
    requires
        lo < hi,
    ensures
        lo <= r < hi,
{
    rand::random_range(lo..hi)
}

/// The integer square root of `n`: the largest `r` with `r * r <= n`.
pub open spec fn isqrt_spec(n: int) -> int {
    choose|r: int| is_root(n, r)
}

/// Whether `r` is the integer square root of `n`.
pub open spec fn is_root(n: int, r: int) -> bool {
    0 <= r && r * r <= n < (r + 1) * (r + 1)
}

proof fn lemma_isqrt_unique(n: int, r: int)
    requires
        0 <= r,
        r * r <= n < (r + 1) * (r + 1),
    ensures
        isqrt_spec(n) == r,
{
    assert(is_root(n, r));
    let s = isqrt_spec(n);
    assert(is_root(n, s));
    if s < r {
        assert((s + 1) * (s + 1) <= r * r) by (nonlinear_arith)
            requires 0 <= s, s + 1 <= r;
    } else if r < s {
        assert((r + 1) * (r + 1) <= s * s) by (nonlinear_arith)
            requires 0 <= r, r + 1 <= s;
    }
}

/// The integer square root, by halving the interval `[0, 2^32)`.
pub fn isqrt(n: u64) -> (r: u64)
    ensures
        r * r <= n < (r + 1) * (r + 1),
        r == isqrt_spec(n as int),
{
    let mut lo: u64 = 0;
    let mut hi: u64 = 0x1_0000_0000;
    assert(hi * hi > n) by (nonlinear_arith)
        requires hi == 0x1_0000_0000, n <= 0xffff_ffff_ffff_ffff;
    while hi - lo > 1
        invariant
            lo < hi <= 0x1_0000_0000,
            lo * lo <= n < hi * hi,
        decreases hi - lo,
    {
        let mid = lo + (hi - lo) / 2;
        assert((mid as u128) * (mid as u128) <= 0x1_0000_0000_0000_0000) by (nonlinear_arith)
            requires mid <= 0x1_0000_0000;
        if (mid as u128) * (mid as u128) <= n as u128 {
            lo = mid;
        } else {
            hi = mid;
        }
    }
    proof {
        lemma_isqrt_unique(n as int, lo as int);
    }
    lo
}

/// Whether a stride lies on the crawl's ring: within one step of the
/// lattice below the circle of radius `WORM_STRIDE`.
pub open spec fn on_stride_ring(p: Point) -> bool {
    WORM_STRIDE * WORM_STRIDE - 2 * WORM_STRIDE - 1 < p.x * p.x + p.y * p.y <= WORM_STRIDE
        * WORM_STRIDE
}

proof fn lemma_ring_small(p: Point)
    requires
        on_stride_ring(p),
    ensures
        small(p, WORM_STRIDE as int),
{
    assert(-504 <= p.x <= 504) by (nonlinear_arith)
        requires p.x * p.x + p.y * p.y <= 254016;
    assert(-504 <= p.y <= 504) by (nonlinear_arith)
        requires p.x * p.x + p.y * p.y <= 254016;
}

/// The candidate stride for two numbers drawn from `0..=1008`, centred on
/// the origin: kept where it lies on the ring. Candidates drawn uniformly
/// from the square and kept this way are spread evenly in direction.
pub fn ring_candidate(dx_raw: u64, dy_raw: u64) -> (r: Option<Point>)
    requires
        dx_raw <= 2 * WORM_STRIDE,
        dy_raw <= 2 * WORM_STRIDE,
    ensures
        ({
            let p = Point { x: (dx_raw - WORM_STRIDE) as i64, y: (dy_raw - WORM_STRIDE) as i64 };
            r == if on_stride_ring(p) {
                Some(p)
            } else {
                None
            }
        }),
        r matches Some(p) ==> small(p, WORM_STRIDE as int),
{
    let x = dx_raw as i64 - WORM_STRIDE;
    let y = dy_raw as i64 - WORM_STRIDE;
    assert(0 <= x * x <= 254016) by (nonlinear_arith)
        requires -504 <= x <= 504;
    assert(0 <= y * y <= 254016) by (nonlinear_arith)
        requires -504 <= y <= 504;
    let d = x * x + y * y;
    let p = Point { x, y };
    if WORM_STRIDE * WORM_STRIDE - 2 * WORM_STRIDE - 1 < d && d <= WORM_STRIDE * WORM_STRIDE {
        proof {
            lemma_ring_small(p);
        }
        Some(p)
    } else {
        None
    }
}

/// A stride on the ring from its horizontal component, drawn from
/// `0..=1008` and centred, and the side of its vertical one.
pub fn ring_from_leg(dx_raw: u64, flip: bool) -> (r: Point)
    requires
        dx_raw <= 2 * WORM_STRIDE,
    ensures
        r.x == dx_raw - WORM_STRIDE,
        r.y == (if flip {
            -1int
        } else {
            1int
        }) * isqrt_spec(WORM_STRIDE * WORM_STRIDE - (dx_raw - WORM_STRIDE) * (dx_raw
            - WORM_STRIDE)),
        on_stride_ring(r),
        small(r, WORM_STRIDE as int),
{
    let dx = dx_raw as i64 - WORM_STRIDE;
    assert(0 <= WORM_STRIDE * WORM_STRIDE - dx * dx <= WORM_STRIDE * WORM_STRIDE) by (nonlinear_arith)
        requires -504 <= dx <= 504, WORM_STRIDE == 504;
    let n = (WORM_STRIDE * WORM_STRIDE - dx * dx) as u64;
    assert(dx == dx_raw - WORM_STRIDE);
    assert(n == WORM_STRIDE * WORM_STRIDE - (dx_raw - WORM_STRIDE) * (dx_raw - WORM_STRIDE));
    let rest = isqrt(n);
    assert(rest <= 504) by (nonlinear_arith)
        requires rest * rest <= 254016;
    assert(254016 - 1009 < dx * dx + rest * rest <= 254016) by (nonlinear_arith)
        requires
            rest * rest <= 254016 - dx * dx,
            254016 - dx * dx < (rest + 1) * (rest + 1),
            rest <= 504,
    ;
    let dy = if flip {
        -(rest as i64)
    } else {
        rest as i64
    };
    assert(dy * dy == rest * rest) by (nonlinear_arith)
        requires dy == rest || dy == -rest;
    assert(dy == (if flip { -1int } else { 1int }) * rest) by {
        if flip {
            assert(-1int * rest == -rest);
        } else {
            assert(1int * rest == rest);
        }
    }
    let r = Point { x: dx, y: dy };
    proof {
        lemma_ring_small(r);
    }
    r
}

/// The motion values from numbers drawn uniformly from `0..100`, `0..800`,
/// `0..300`, `0..3_000_000` and `0..601`, and a stride: a fall starting in
/// the middle four fifths of the screen, drifting by at most 15% of its
/// width per second, lasting 2 to 5 seconds; a slide in the central band.
pub fn shape_draws(pick_raw: u64, x_raw: u64, vx_raw: u64, life_raw: u64, slide_raw: u64, worm_step: Point) -> (r: EffectDraws)
    requires
        pick_raw < 100,
        x_raw < 800,
        vx_raw < 300,
        life_raw < 3_000_000,
        slide_raw < 601,
        small(worm_step, MAX_STRIDE as int),
    ensures
        r.wf(),
        r.pick == pick_raw + 1,
        r.x_permille == x_raw + 100,
        r.vx_permille == vx_raw - 150,
        r.life_us == life_raw + 2_000_000,
        r.slide_x_permille == slide_raw + 150,
        r.worm_step == worm_step,
{
    EffectDraws {
        pick: pick_raw as u32 + 1,
        x_permille: x_raw as u32 + 100,
        vx_permille: vx_raw as i32 - 150,
        life_us: life_raw + 2_000_000,
        slide_x_permille: slide_raw as u32 + 150,
        worm_step,
    }
}

/// Candidate strides tried before one is built from a single draw.
pub const RING_TRIES: u32 = 10_000;

/// Draws the motion values (see `shape_draws`); the stride of a crawl is a
/// candidate on the ring, drawn until one is kept (see `ring_candidate`).
pub fn random_draws() -> (r: EffectDraws)
    ensures
        r.wf(),
        1 <= r.pick <= 100,
        100 <= r.x_permille < 900,
        -150 <= r.vx_permille < 150,
        2_000_000 <= r.life_us < 5_000_000,
        150 <= r.slide_x_permille <= 750,
        small(r.worm_step, WORM_STRIDE as int),
        on_stride_ring(r.worm_step),
{
    let side = 2 * WORM_STRIDE as u64 + 1;
    let mut step: Option<Point> = None;
    let mut tries: u32 = 0;
    while tries < RING_TRIES && step.is_none()
        invariant
            side == 2 * WORM_STRIDE + 1,
            step matches Some(p) ==> on_stride_ring(p) && small(p, WORM_STRIDE as int),
        decreases RING_TRIES - tries,
    {
        step = ring_candidate(random_below(0, side), random_below(0, side));
        tries = tries + 1;
    }
    let worm_step = match step {
        Some(p) => p,
        None => ring_from_leg(random_below(0, side), random_below(0, 2) == 1),
    };
    shape_draws(
        random_below(0, 100),
        random_below(0, 800),
        random_below(0, 300),
        random_below(0, 3_000_000),
        random_below(0, 601),
        worm_step,
    )
}

/// Whether admission into a queue of `len` members bounded by `cap` takes
/// place, and the queue's length after it.
pub open spec fn admission(len: nat, cap: nat) -> (bool, nat) {
    if len < cap {
        (true, len + 1)
    } else {
        (false, len)
    }
}

/// The queue's length and the count of refused emotes after `k` admissions
/// into a queue of `len` members bounded by `cap`.
pub open spec fn admissions(len: nat, cap: nat, k: nat) -> (nat, nat)
    decreases k,
{
    if k == 0 {
        (len, 0)
    } else {
        let (l, refused) = admissions(len, cap, (k - 1) as nat);
        let (ok, l2) = admission(l, cap);
        (l2, if ok {
            refused
        } else {
            refused + 1
        })
    }
}

proof fn lemma_admissions(len: nat, cap: nat, k: nat)
    requires
        len <= cap,
    ensures
        admissions(len, cap, k) == (if len + k <= cap {
            (len + k, 0nat)
        } else {
            (cap, (len + k - cap) as nat)
        }),
    decreases k,
{
    if k > 0 {
        lemma_admissions(len, cap, (k - 1) as nat);
    }
}

/// However the emotes arrive, `k` admissions into a queue of `len <= cap`
/// members fill it up to `cap` and refuse the rest; so `cap + 1` admissions
/// into an empty queue leave `cap` members and one refusal.
pub proof fn lemma_admissions_fill_to_capacity(len: nat, cap: nat, k: nat)
    requires
        len <= cap,
    ensures
        admissions(len, cap, k) == (if len + k <= cap {
            (len + k, 0nat)
        } else {
            (cap, (len + k - cap) as nat)
        }),
        admissions(0, cap, cap + 1) == (cap, 1nat),
{
    lemma_admissions(len, cap, k);
    lemma_admissions(0, cap, cap + 1);
}

/// Whether `n` is `o` with every emote advanced by `dt` microseconds and
/// those whose motion ended dropped, in the same order.
pub open spec fn pruned(o: Seq<EmoteOBS>, n: Seq<EmoteOBS>, dt: u64) -> bool
    decreases o.len(),
{
    if o.len() == 0 {
        n.len() == 0
    } else if o.last().survives(dt) {
        n.len() > 0 && EmoteOBS::advanced(o.last(), n.last(), dt) && pruned(
            o.drop_last(),
            n.drop_last(),
            dt,
        )
    } else {
        pruned(o.drop_last(), n, dt)
    }
}

/// Whether `o` is the emote freshly made from `d`: its name, the frames its
/// bytes decode to, the first frame just begun, and a motion on a screen of
/// `w` by `h` pixels.
pub open spec fn fresh(o: EmoteOBS, d: EmoteData, w: u32, h: u32) -> bool {
    &&& o.name@ == d.name@
    &&& decoded(d.img@) is Some
    &&& o.frames@.map_values(|f: Frame| f.view()) == decoded(d.img@)->0
    &&& o.frame == 0 && o.frame_time == 0
    &&& o.effect is Some && o.effect->0.screen() == (w, h)
}

/// The queue's length after the arrivals `arr` meet a queue of `len`
/// members bounded by `cap`: each one that decodes is taken while there is
/// room.
pub open spec fn admitted_len(len: nat, arr: Seq<EmoteData>, cap: nat) -> nat
    decreases arr.len(),
{
    if arr.len() == 0 {
        len
    } else {
        let l = admitted_len(len, arr.drop_last(), cap);
        if l < cap && decoded(arr.last().img@) is Some {
            l + 1
        } else {
            l
        }
    }
}

/// Whether `mid` is the queue `q` after the arrivals `arr`, bounded by
/// `cap`, on a screen of `w` by `h`: each arrival that decodes while there
/// is room is appended, fresh and running, in arrival order; the others are
/// dropped.
pub open spec fn admitted_into(q: Seq<EmoteOBS>, arr: Seq<EmoteData>, cap: nat, w: u32, h: u32, mid: Seq<EmoteOBS>) -> bool
    decreases arr.len(),
{
    if arr.len() == 0 {
        mid == q
    } else if admitted_len(q.len(), arr.drop_last(), cap) < cap && decoded(arr.last().img@) is Some {
        &&& mid.len() > 0
        &&& admitted_into(q, arr.drop_last(), cap, w, h, mid.drop_last())
        &&& fresh(mid.last(), arr.last(), w, h)
        &&& mid.last().spec_is_alive()
    } else {
        admitted_into(q, arr.drop_last(), cap, w, h, mid)
    }
}

proof fn lemma_admitted_all_decode(len: nat, arr: Seq<EmoteData>, cap: nat)
    requires
        len <= cap,
        forall|i: int| 0 <= i < arr.len() ==> decoded((#[trigger] arr[i]).img@) is Some,
    ensures
        admitted_len(len, arr, cap) == if len + arr.len() <= cap {
            len + arr.len()
        } else {
            cap
        },
    decreases arr.len(),
{
    if arr.len() > 0 {
        let init = arr.drop_last();
        assert forall|i: int| 0 <= i < init.len() implies decoded((#[trigger] init[i]).img@) is Some by {
            assert(init[i] == arr[i]);
        }
        lemma_admitted_all_decode(len, init, cap);
        assert(decoded(arr[arr.len() - 1].img@) is Some);
    }
}

/// Arrivals that all decode fill a queue of `len <= cap` members up to
/// `cap`, whatever they hold and in whatever order they come; so `cap + 1`
/// of them meeting an empty queue leave exactly `cap` members.
pub proof fn lemma_arrivals_fill_to_capacity(len: nat, arr: Seq<EmoteData>, cap: nat)
    requires
        len <= cap,
        forall|i: int| 0 <= i < arr.len() ==> decoded((#[trigger] arr[i]).img@) is Some,
    ensures
        admitted_len(len, arr, cap) == if len + arr.len() <= cap {
            len + arr.len()
        } else {
            cap
        },
        len == 0 && arr.len() == cap + 1 ==> admitted_len(len, arr, cap) == cap,
{
    lemma_admitted_all_decode(len, arr, cap);
}

/// The emotes on screen and the settings that shape them.
#[derive(Debug)]
pub struct EmojiKanBan {
    pub emote_queue: Vec<EmoteOBS>,
    pub emote_queue_max_length: u32,
    pub opacity: u32,
    pub screen_w: u32,
    pub screen_h: u32,
    pub screen_x: u32,
    pub screen_y: u32,
}

impl EmojiKanBan {
    pub open spec fn wf(&self) -> bool {
        forall|i: int|
            0 <= i < self.emote_queue@.len() ==> (#[trigger] self.emote_queue@[i]).wf()
                && self.emote_queue@[i].effect is Some
    }

    /// An empty queue with the given screen and bound.
    pub fn new(screen_w: u32, screen_h: u32, screen_x: u32, screen_y: u32, max_length: u32) -> (r:
        EmojiKanBan)
        ensures
            r.wf(),
            r.emote_queue@.len() == 0,
            r.emote_queue_max_length == max_length,
            r.opacity == 255,
            r.screen_w == screen_w && r.screen_h == screen_h,
            r.screen_x == screen_x && r.screen_y == screen_y,
    {
        EmojiKanBan {
            emote_queue: Vec::new(),
            emote_queue_max_length: max_length,
            opacity: 255,
            screen_w,
            screen_h,
            screen_x,
            screen_y,
        }
    }

    /// Changes the bound of the queue; where the queue is longer, its most
    /// recent members are dropped.
    pub fn set_max_length(&mut self, max_length: u32)
        requires
            old(self).wf(),
        ensures
            final(self).wf(),
            final(self).emote_queue_max_length == max_length,
            final(self).emote_queue@ == if old(self).emote_queue@.len() > max_length {
                old(self).emote_queue@.subrange(0, max_length as int)
            } else {
                old(self).emote_queue@
            },
            final(self).screen_w == old(self).screen_w,
            final(self).screen_h == old(self).screen_h,
    {
        self.emote_queue_max_length = max_length;
        if self.emote_queue.len() > max_length as usize {
            self.emote_queue.truncate(max_length as usize);
        }
    }

    pub fn get_width(&self) -> (r: u32)
        ensures
            r == self.screen_w,
    {
        self.screen_w
    }

    pub fn get_height(&self) -> (r: u32)
        ensures
            r == self.screen_h,
    {
        self.screen_h
    }

    /// Puts an emote with its motion at the end of the queue, unless the
    /// queue is full; a refused emote is dropped.
    pub fn admit_emote(&mut self, emote: EmoteOBS, effect: EmoteEffect) -> (r: bool)
        requires
            old(self).wf(),
            emote.wf(),
            effect.wf(),
        ensures
            final(self).wf(),
            (r, final(self).emote_queue@.len() as nat) == admission(
                old(self).emote_queue@.len(),
                old(self).emote_queue_max_length as nat,
            ),
            r ==> final(self).emote_queue@ == old(self).emote_queue@.push(
                EmoteOBS { effect: Some(effect), ..emote },
            ),
            !r ==> final(self).emote_queue@ == old(self).emote_queue@,
            final(self).emote_queue_max_length == old(self).emote_queue_max_length,
            final(self).screen_w == old(self).screen_w,
            final(self).screen_h == old(self).screen_h,
    {
        if self.emote_queue.len() < self.emote_queue_max_length as usize {
            let mut emote = emote;
            emote.effect = Some(effect);
            self.emote_queue.push(emote);
            true
        } else {
            false
        }
    }

    /// Advances every emote by `dt` microseconds, in queue order, then drops
    /// those whose motion has ended.
    pub fn advance(&mut self, dt: u64)
        requires
            old(self).wf(),
        ensures
            final(self).wf(),
            final(self).emote_queue@.len() <= old(self).emote_queue@.len(),
            pruned(old(self).emote_queue@, final(self).emote_queue@, dt),
            forall|i: int|
                0 <= i < final(self).emote_queue@.len() ==> (#[trigger] final(self).emote_queue@[i]).spec_is_alive(),
            final(self).emote_queue_max_length == old(self).emote_queue_max_length,
            final(self).screen_w == old(self).screen_w,
            final(self).screen_h == old(self).screen_h,
    {
        let ghost before = self.emote_queue@;
        let mut rest: Vec<EmoteOBS> = Vec::new();
        std::mem::swap(&mut rest, &mut self.emote_queue);
        let mut kept: Vec<EmoteOBS> = Vec::new();
        let ghost n = before.len();
        let ghost mut i: int = 0;
        while rest.len() > 0
            invariant
                0 <= i <= n == before.len(),
                rest@ == before.subrange(i, n as int),
                forall|j: int| 0 <= j < n ==> (#[trigger] before[j]).wf() && before[j].effect is Some,
                forall|j: int| 0 <= j < kept@.len() ==> (#[trigger] kept@[j]).wf() && kept@[j].effect is Some
                    && kept@[j].spec_is_alive(),
                kept@.len() <= i,
                pruned(before.subrange(0, i), kept@, dt),
            decreases rest@.len(),
        {
            let mut e = rest.remove(0);
            assert(e == before[i]);
            let ghost e0 = e;
            e.update(dt);
            assert(before.subrange(0, i + 1).drop_last() =~= before.subrange(0, i));
            assert(before.subrange(0, i + 1).last() == e0);
            let ghost kept0 = kept@;
            if e.is_alive() {
                kept.push(e);
                assert(kept@.drop_last() =~= kept0);
            }
            proof {
                i = i + 1;
            }
            assert(rest@ =~= before.subrange(i, n as int));
        }
        assert(before.subrange(0, n as int) =~= before);
        self.emote_queue = kept;
    }

    /// Decodes a fetched emote and admits it with the motion that `draws`
    /// selects, sized after its first frame; an emote without frames, or one
    /// that finds the queue full, is dropped.
    pub fn admit_data(&mut self, data: EmoteData, draws: EffectDraws) -> (r: bool)
        requires
            old(self).wf(),
            draws.wf(),
        ensures
            final(self).wf(),
            r <==> old(self).emote_queue@.len() < old(self).emote_queue_max_length
                && decoded(data.img@) is Some,
            r ==> final(self).emote_queue@.len() == old(self).emote_queue@.len() + 1
                && final(self).emote_queue@.drop_last() == old(self).emote_queue@
                && fresh(final(self).emote_queue@.last(), data, old(self).screen_w, old(self).screen_h)
                && (draws.life_us > 0 ==> final(self).emote_queue@.last().spec_is_alive()),
            !r ==> final(self).emote_queue@ == old(self).emote_queue@,
            final(self).emote_queue_max_length == old(self).emote_queue_max_length,
            final(self).screen_w == old(self).screen_w,
            final(self).screen_h == old(self).screen_h,
    {
        if self.emote_queue.len() >= self.emote_queue_max_length as usize {
            return false;
        }
        proof {
            lemma_decoded_nonempty(data.img@);
        }
        let emote = EmoteOBS::from(data);
        if emote.frames.len() == 0 {
            return false;
        }
        let ew = emote.frames[0].width;
        let eh = emote.frames[0].height;
        let effect = choose_effect(draws, self.screen_w, self.screen_h, ew, eh);
        let ghost pre = self.emote_queue@;
        let ok = self.admit_emote(emote, effect);
        assert(self.emote_queue@.drop_last() =~= pre);
        ok
    }

    /// One rendered frame: brings every emote's motion to the current
    /// screen size, admits the emotes that arrived since the last frame, in
    /// order, each with a motion drawn at random (an emote that does not
    /// decode, or finds the queue full, is dropped), then advances every
    /// emote by `dt` microseconds and drops those that ended.
    pub fn video_tick(&mut self, arrivals: Vec<EmoteData>, dt: u64)
        requires
            old(self).wf(),
        ensures
            final(self).wf(),
            final(self).emote_queue_max_length == old(self).emote_queue_max_length,
            final(self).screen_w == old(self).screen_w,
            final(self).screen_h == old(self).screen_h,
            exists|r: Seq<EmoteOBS>, mid: Seq<EmoteOBS>|
                #![trigger admitted_into(r, arrivals@, old(self).emote_queue_max_length as nat, old(self).screen_w, old(self).screen_h, mid)]
                {
                    &&& r.len() == old(self).emote_queue@.len()
                    &&& forall|i: int|
                        0 <= i < r.len() ==> resized_emote(
                            old(self).emote_queue@[i],
                            #[trigger] r[i],
                            old(self).screen_w,
                            old(self).screen_h,
                        )
                    &&& admitted_into(
                        r,
                        arrivals@,
                        old(self).emote_queue_max_length as nat,
                        old(self).screen_w,
                        old(self).screen_h,
                        mid,
                    )
                    &&& mid.len() == admitted_len(
                        old(self).emote_queue@.len(),
                        arrivals@,
                        old(self).emote_queue_max_length as nat,
                    )
                    &&& pruned(mid, final(self).emote_queue@, dt)
                },
            final(self).emote_queue@.len() <= old(self).emote_queue@.len() + arrivals@.len(),
            old(self).emote_queue@.len() <= old(self).emote_queue_max_length
                ==> final(self).emote_queue@.len() <= final(self).emote_queue_max_length,
            forall|i: int|
                0 <= i < final(self).emote_queue@.len() ==> (#[trigger] final(self).emote_queue@[i]).spec_is_alive(),
    {
        let w = self.screen_w;
        let h = self.screen_h;
        let ghost old_q = self.emote_queue@;
        self.set_screen(w, h);
        let ghost r = self.emote_queue@;
        let ghost cap = self.emote_queue_max_length as nat;
        let ghost len0 = self.emote_queue@.len();
        let ghost max0 = self.emote_queue_max_length;
        let ghost arr = arrivals@;
        let ghost total = arrivals@.len();
        let mut arrivals = arrivals;
        let ghost mut k: int = 0;
        while arrivals.len() > 0
            invariant
                self.wf(),
                0 <= k <= total == arr.len(),
                arrivals@ == arr.subrange(k, total as int),
                self.emote_queue_max_length == max0,
                cap == max0 as nat,
                self.screen_w == w && self.screen_h == h,
                r.len() == len0,
                admitted_into(r, arr.subrange(0, k), cap, w, h, self.emote_queue@),
                self.emote_queue@.len() == admitted_len(len0, arr.subrange(0, k), cap),
                self.emote_queue@.len() <= len0 + k,
                len0 <= self.emote_queue_max_length ==> self.emote_queue@.len()
                    <= self.emote_queue_max_length,
            decreases arrivals@.len(),
        {
            let data = arrivals.remove(0);
            assert(data == arr[k]);
            let ghost before = self.emote_queue@;
            assert(arr.subrange(0, k + 1).drop_last() =~= arr.subrange(0, k));
            assert(arr.subrange(0, k + 1).last() == arr[k]);
            if self.emote_queue.len() < self.emote_queue_max_length as usize {
                let draws = random_draws();
                let ok = self.admit_data(data, draws);
                proof {
                    if ok {
                        assert(self.emote_queue@.drop_last() == before);
                    }
                }
            }
            proof {
                k = k + 1;
            }
            assert(arrivals@ =~= arr.subrange(k, total as int));
        }
        assert(arr.subrange(0, total as int) =~= arr);
        let ghost mid = self.emote_queue@;
        self.advance(dt);
        assert(admitted_into(r, arr, cap, w, h, mid));
    }

    /// Follows a change of the screen's size, for the queue and for every
    /// emote's motion.
    pub fn set_screen(&mut self, w: u32, h: u32)
        requires
            old(self).wf(),
        ensures
            final(self).wf(),
            final(self).screen_w == w && final(self).screen_h == h,
            final(self).emote_queue_max_length == old(self).emote_queue_max_length,
            final(self).emote_queue@.len() == old(self).emote_queue@.len(),
            forall|i: int|
                0 <= i < final(self).emote_queue@.len() ==> resized_emote(
                    old(self).emote_queue@[i],
                    #[trigger] final(self).emote_queue@[i],
                    w,
                    h,
                ),
    {
        self.screen_w = w;
        self.screen_h = h;
        let ghost before = self.emote_queue@;
        let mut rest: Vec<EmoteOBS> = Vec::new();
        std::mem::swap(&mut rest, &mut self.emote_queue);
        let mut done: Vec<EmoteOBS> = Vec::new();
        let ghost n = before.len();
        let ghost mut i: int = 0;
        while rest.len() > 0
            invariant
                0 <= i <= n == before.len(),
                rest@ == before.subrange(i, n as int),
                forall|j: int| 0 <= j < n ==> (#[trigger] before[j]).wf() && before[j].effect is Some,
                done@.len() == i,
                forall|j: int| 0 <= j < i ==> (#[trigger] done@[j]).wf() && done@[j].effect is Some
                    && resized_emote(before[j], done@[j], w, h),
            decreases rest@.len(),
        {
            let mut e = rest.remove(0);
            assert(e == before[i]);
            match &mut e.effect {
                Some(effect) => effect.update_dimensions(w, h),
                None => {},
            }
            done.push(e);
            proof {
                i = i + 1;
            }
            assert(rest@ =~= before.subrange(i, n as int));
        }
        self.emote_queue = done;
    }

    /// Where each emote's current frame is drawn this frame, in queue order.
    pub fn snapshot(&self) -> (r: Vec<Vec<Placement>>)
        requires
            self.wf(),
        ensures
            r@.len() == self.emote_queue@.len(),
            forall|i: int|
                0 <= i < r@.len() ==> (#[trigger] self.emote_queue@[i]).effect->0.placed(r@[i]@),
    {
        let mut out: Vec<Vec<Placement>> = Vec::new();
        let mut i: usize = 0;
        while i < self.emote_queue.len()
            invariant
                self.wf(),
                i <= self.emote_queue@.len(),
                out@.len() == i,
                forall|j: int| 0 <= j < i ==> (#[trigger] self.emote_queue@[j]).effect->0.placed(out@[j]@),
            decreases self.emote_queue@.len() - i,
        {
            let e = &self.emote_queue[i];
            match &e.effect {
                Some(effect) => {
                    out.push(effect.placements());
                },
                None => {},
            }
            i = i + 1;
        }
        out
    }
}

} // verus!
