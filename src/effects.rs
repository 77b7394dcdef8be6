//! Motion behaviours of an emote on screen. Time is counted in microseconds;
//! the falling emote moves in micro-pixels, the others in whole pixels.

use vstd::prelude::*;
use crate::easing::{
    div_floor, fraction, fraction_spec, lemma_smootherstep_ends, smootherstep, smootherstep_spec,
    EASE_ONE,
};

verus! {

/// Micro-units in one unit: microseconds in a second, micro-pixels in a pixel.
pub const MICROS: i64 = 1_000_000;

/// Largest speed of a falling emote, in micro-pixels per second.
pub const MAX_SPEED: i64 = 10_000_000_000_000_000;

/// Largest distance of a falling emote from the origin, in micro-pixels.
pub const MAX_COORD: i64 = 1_000_000_000_000_000_000;

/// Largest acceleration of a falling emote, in pixels per second squared.
pub const MAX_GRAVITY: i64 = 1_000_000_000;

/// A point or a vector on the screen.
#[derive(Clone, Copy, Debug, PartialEq, Eq, Structural)]
pub struct Point {
    pub x: i64,
    pub y: i64,
}

/// Where and how large one image is drawn: the top-left corner in pixels,
/// and a width and height in pixels, where zero means the frame's own size.
#[derive(Clone, Copy, Debug, PartialEq, Eq, Structural)]
pub struct Placement {
    pub x: i64,
    pub y: i64,
    pub width: u32,
    pub height: u32,
}

pub open spec fn clamp_spec(v: int, lo: int, hi: int) -> int {
    if v < lo {
        lo
    } else if v > hi {
        hi
    } else {
        v
    }
}

fn clamp_i128(v: i128, lo: i128, hi: i128) -> (r: i128)
    requires
        lo <= hi,
    ensures
        r == clamp_spec(v as int, lo as int, hi as int),
        lo <= r <= hi,
{
    if v < lo {
        lo
    } else if v > hi {
        hi
    } else {
        v
    }
}

/// An emote thrown up from a random point, falling under gravity and
/// bouncing off the floor and the side walls until its life runs out.
#[derive(Debug)]
pub struct GravityEffect {
    pub screen_w: u32,
    pub screen_h: u32,
    pub emote_w: u32,
    pub emote_h: u32,
    /// Microseconds the emote lives.
    pub life_total: u64,
    /// Microseconds it has lived.
    pub life_lived: u64,
    /// Pixels per second squared, downward.
    pub g: i64,
    /// Share of the vertical speed kept at a bounce, in thousandths.
    pub bounce: u32,
    /// Top-left corner, in micro-pixels.
    pub pos: Point,
    /// Micro-pixels per second.
    pub vel: Point,
}

/// The lowest top edge an emote of height `eh` can have, in micro-pixels.
pub open spec fn floor_of(h: u32, eh: u32) -> int {
    (h - eh) * MICROS
}

/// The right end (excluded) of the top-left corner's range, in micro-pixels.
pub open spec fn right_of(w: u32, ew: u32) -> int {
    (w - ew) * MICROS
}

/// Where a horizontal position that left `[0, right)` is put back.
pub open spec fn clamp_x(x: int, right: int) -> int {
    if x < 0 {
        0
    } else if right > 0 {
        right - 1
    } else {
        0
    }
}

impl GravityEffect {
    pub open spec fn wf(&self) -> bool {
        &&& -MAX_GRAVITY <= self.g <= MAX_GRAVITY
        &&& self.bounce <= 1000
        &&& -MAX_SPEED <= self.vel.x <= MAX_SPEED
        &&& -MAX_SPEED <= self.vel.y <= MAX_SPEED
        &&& -MAX_COORD <= self.pos.x <= MAX_COORD
        &&& -MAX_COORD <= self.pos.y <= MAX_COORD
    }

    /// Vertical speed after gravity acts for `dt` microseconds.
    pub open spec fn fall_speed(&self, dt: u64) -> int {
        clamp_spec(self.vel.y + self.g * dt, -MAX_SPEED as int, MAX_SPEED as int)
    }

    /// Vertical position after `dt` microseconds, before the floor is met.
    pub open spec fn free_y(&self, dt: u64) -> int {
        clamp_spec(
            self.pos.y + (self.fall_speed(dt) * dt) / (MICROS as int),
            -MAX_COORD as int,
            MAX_COORD as int,
        )
    }

    /// Horizontal position after `dt` microseconds, before the walls are met.
    pub open spec fn free_x(&self, dt: u64) -> int {
        clamp_spec(
            self.pos.x + (self.vel.x * dt) / (MICROS as int),
            -MAX_COORD as int,
            MAX_COORD as int,
        )
    }

    /// Whether the move of `dt` microseconds meets the floor.
    pub open spec fn hits_floor(&self, dt: u64) -> bool {
        self.free_y(dt) > floor_of(self.screen_h, self.emote_h)
    }

    /// Whether the move of `dt` microseconds leaves the horizontal range.
    pub open spec fn hits_wall(&self, dt: u64) -> bool {
        self.free_x(dt) < 0 || self.free_x(dt) >= right_of(self.screen_w, self.emote_w)
    }

    /// Vertical speed after a move of `dt` microseconds: reflected and
    /// damped where the floor is met. It does not depend on the horizontal
    /// motion.
    pub open spec fn next_vy(&self, dt: u64) -> int {
        if self.hits_floor(dt) {
            -((self.fall_speed(dt) * self.bounce) / 1000)
        } else {
            self.fall_speed(dt)
        }
    }

    /// The state after `dt` microseconds.
    pub open spec fn stepped(&self, dt: u64) -> GravityEffect {
        if dt == 0 {
            *self
        } else {
            let vy = self.fall_speed(dt);
            let (y, vy) = if self.hits_floor(dt) {
                (floor_of(self.screen_h, self.emote_h), -((vy * self.bounce) / 1000))
            } else {
                (self.free_y(dt), vy)
            };
            let (x, vx) = if self.hits_wall(dt) {
                (clamp_x(self.free_x(dt), right_of(self.screen_w, self.emote_w)), -self.vel.x)
            } else {
                (self.free_x(dt), self.vel.x as int)
            };
            GravityEffect {
                life_lived: if self.life_lived + dt > u64::MAX {
                    u64::MAX
                } else {
                    (self.life_lived + dt) as u64
                },
                pos: Point { x: x as i64, y: y as i64 },
                vel: Point { x: vx as i64, y: vy as i64 },
                ..*self
            }
        }
    }

    /// A falling emote starting at the top edge, at `x_permille` thousandths
    /// of the screen width, with a horizontal speed of `vx_permille`
    /// thousandths of the screen width per second, living `life_us`
    /// microseconds.
    pub fn init(
        screen_w: u32,
        screen_h: u32,
        emote_w: u32,
        emote_h: u32,
        gravity: i64,
        bounce: u32,
        x_permille: u32,
        vx_permille: i32,
        life_us: u64,
    ) -> (r: GravityEffect)
        requires
            -MAX_GRAVITY <= gravity <= MAX_GRAVITY,
            bounce <= 1000,
            x_permille <= 1000,
            -1000 <= vx_permille <= 1000,
        ensures
            r.wf(),
            r.screen_w == screen_w && r.screen_h == screen_h,
            r.emote_w == emote_w && r.emote_h == emote_h,
            r.g == gravity && r.bounce == bounce,
            r.life_total == life_us && r.life_lived == 0,
            r.pos == (Point { x: (screen_w * x_permille * 1000) as i64, y: 0 }),
            r.vel == (Point { x: (screen_w * vx_permille * 1000) as i64, y: 0 }),
    {
        assert(0 <= screen_w * x_permille * 1000 <= 4_294_967_295_000_000) by (nonlinear_arith)
            requires x_permille <= 1000, screen_w <= 4_294_967_295u32;
        assert(-4_294_967_295_000_000 <= screen_w * vx_permille * 1000 <= 4_294_967_295_000_000)
            by (nonlinear_arith)
            requires -1000 <= vx_permille <= 1000, screen_w <= 4_294_967_295u32;
        let x = (screen_w as i64) * (x_permille as i64) * 1000;
        let vx = (screen_w as i64) * (vx_permille as i64) * 1000;
        GravityEffect {
            screen_w,
            screen_h,
            emote_w,
            emote_h,
            life_total: life_us,
            life_lived: 0,
            g: gravity,
            bounce,
            pos: Point { x, y: 0 },
            vel: Point { x: vx, y: 0 },
        }
    }

    /// Follows a change of the screen's size.
    pub fn update_dimensions(&mut self, w: u32, h: u32)
        ensures
            *final(self) == (GravityEffect { screen_w: w, screen_h: h, ..*old(self) }),
    {
        self.screen_w = w;
        self.screen_h = h;
    }

    /// Advances the emote by `dt` microseconds: gravity changes the vertical
    /// speed, then the speed moves the emote; an emote that passes the floor
    /// is put on it and bounces up, one that leaves the horizontal range is
    /// put back and reflected.
    pub fn update(&mut self, dt: u64)
        requires
            old(self).wf(),
        ensures
            final(self).wf(),
            *final(self) == old(self).stepped(dt),
            dt > 0 || old(self).pos.y <= floor_of(old(self).screen_h, old(self).emote_h)
                ==> final(self).pos.y <= floor_of(final(self).screen_h, final(self).emote_h),
            dt > 0 && old(self).hits_wall(dt) ==> final(self).vel.x == -old(self).vel.x
                && final(self).vel.y == old(self).next_vy(dt),
            dt > 0 && !old(self).hits_wall(dt) ==> final(self).vel.x == old(self).vel.x
                && final(self).vel.y == old(self).next_vy(dt),
    {
        if dt == 0 {
            return;
        }
        self.life_lived = self.life_lived.saturating_add(dt);
        let t = dt as i128;
        let g = self.g as i128;
        assert(-18_446_744_073_709_551_615_000_000_000 <= g * t
            <= 18_446_744_073_709_551_615_000_000_000) by (nonlinear_arith)
            requires
                -1_000_000_000 <= g <= 1_000_000_000,
                0 <= t <= 18_446_744_073_709_551_615,
        ;
        let vy = clamp_i128(self.vel.y as i128 + g * t, -MAX_SPEED as i128, MAX_SPEED as i128);
        assert(-184_467_440_737_095_516_150_000_000_000_000_000 <= vy * t
            <= 184_467_440_737_095_516_150_000_000_000_000_000) by (nonlinear_arith)
            requires
                -10_000_000_000_000_000 <= vy <= 10_000_000_000_000_000,
                0 <= t <= 18_446_744_073_709_551_615,
        ;
        let vx = self.vel.x as i128;
        assert(-184_467_440_737_095_516_150_000_000_000_000_000 <= vx * t
            <= 184_467_440_737_095_516_150_000_000_000_000_000) by (nonlinear_arith)
            requires
                -10_000_000_000_000_000 <= vx <= 10_000_000_000_000_000,
                0 <= t <= 18_446_744_073_709_551_615,
        ;
        let dy = div_floor(vy * t, MICROS as i128);
        let dx = div_floor(vx * t, MICROS as i128);
        assert(-184_467_440_737_095_516_150_000_000_000int <= dy
            <= 184_467_440_737_095_516_150_000_000_000int) by (nonlinear_arith)
            requires
                dy == (vy * t) / 1_000_000,
                -184_467_440_737_095_516_150_000_000_000_000_000 <= vy * t
                    <= 184_467_440_737_095_516_150_000_000_000_000_000,
        ;
        assert(-184_467_440_737_095_516_150_000_000_000int <= dx
            <= 184_467_440_737_095_516_150_000_000_000int) by (nonlinear_arith)
            requires
                dx == (vx * t) / 1_000_000,
                -184_467_440_737_095_516_150_000_000_000_000_000 <= vx * t
                    <= 184_467_440_737_095_516_150_000_000_000_000_000,
        ;
        let y = clamp_i128(self.pos.y as i128 + dy, -MAX_COORD as i128, MAX_COORD as i128);
        let x = clamp_i128(self.pos.x as i128 + dx, -MAX_COORD as i128, MAX_COORD as i128);
        let floor = (self.screen_h as i128 - self.emote_h as i128) * (MICROS as i128);
        if y > floor {
            self.pos.y = floor as i64;
            let b = self.bounce as i128;
            assert(vy <= 0 ==> vy <= vy * b / 1000 <= 0) by (nonlinear_arith)
                requires 0 <= b <= 1000;
            assert(vy >= 0 ==> 0 <= vy * b / 1000 <= vy) by (nonlinear_arith)
                requires 0 <= b <= 1000;
            let kept = div_floor(vy * b, 1000);
            self.vel.y = (-kept) as i64;
        } else {
            self.pos.y = y as i64;
            self.vel.y = vy as i64;
        }
        let right = (self.screen_w as i128 - self.emote_w as i128) * (MICROS as i128);
        if x < 0 || x >= right {
            self.pos.x = if x < 0 {
                0
            } else if right > 0 {
                (right - 1) as i64
            } else {
                0
            };
            self.vel.x = -self.vel.x;
        } else {
            self.pos.x = x as i64;
        }
    }

    pub open spec fn spec_is_alive(&self) -> bool {
        self.life_lived < self.life_total
    }

    /// Whether the emote still lives.
    pub fn is_alive(&self) -> (r: bool)
        ensures
            r == self.spec_is_alive(),
    {
        self.life_lived < self.life_total
    }

    pub open spec fn spec_placement(&self) -> Placement {
        Placement {
            x: (self.pos.x / MICROS) as i64,
            y: (self.pos.y / MICROS) as i64,
            width: 0,
            height: 0,
        }
    }

    /// Where the emote is drawn: its position in whole pixels, at its own size.
    pub fn placement(&self) -> (r: Placement)
        ensures
            r == self.spec_placement(),
    {
        let x = div_floor(self.pos.x as i128, MICROS as i128);
        let y = div_floor(self.pos.y as i128, MICROS as i128);
        assert(i64::MIN <= x <= i64::MAX) by (nonlinear_arith)
            requires x == self.pos.x / 1_000_000, i64::MIN <= self.pos.x <= i64::MAX;
        assert(i64::MIN <= y <= i64::MAX) by (nonlinear_arith)
            requires y == self.pos.y / 1_000_000, i64::MIN <= self.pos.y <= i64::MAX;
        Placement { x: x as i64, y: y as i64, width: 0, height: 0 }
    }
}

/// Microseconds of the three stages of a slide: rising, holding, falling.
pub const RISE_US: u64 = 3_000_000;

pub const HOLD_US: u64 = 2_000_000;

pub const FALL_US: u64 = 3_000_000;

/// Width in pixels at which a sliding emote is drawn.
pub const SLIDE_SIZE: u32 = 512;

/// Microseconds of a whole slide.
pub const SLIDE_TOTAL_US: u64 = 8_000_000;

/// The height in pixels of an image of `ew` by `eh` drawn `size` pixels wide
/// (square where the width is zero), at most `u32::MAX`.
pub open spec fn scaled_height(ew: u32, eh: u32, size: u32) -> int {
    if ew == 0 {
        size as int
    } else if (eh as int) * (size as int) / (ew as int) > u32::MAX {
        u32::MAX as int
    } else {
        (eh as int) * (size as int) / (ew as int)
    }
}

fn scaled_height_exec(ew: u32, eh: u32, size: u32) -> (r: u32)
    ensures
        r == scaled_height(ew, eh, size),
{
    if ew == 0 {
        size
    } else {
        assert((eh as u64) * (size as u64) <= 18_446_744_065_119_617_025) by (nonlinear_arith)
            requires eh <= 4_294_967_295u32, size <= 4_294_967_295u32;
        let h = (eh as u64) * (size as u64) / (ew as u64);
        if h > u32::MAX as u64 {
            u32::MAX
        } else {
            h as u32
        }
    }
}

/// The top edge of a sliding emote of height `sh` on a screen of height `h`,
/// at time `t` of stage `stage`: it rises from below the screen along the
/// S-curve, holds at the bottom edge, and sinks back along the same curve.
pub open spec fn slide_y(h: u32, sh: int, stage: int, t: u64) -> int {
    let e = EASE_ONE as int;
    if stage == 0 {
        h - (sh * smootherstep_spec(fraction_spec(t as int, RISE_US as int))) / e
    } else if stage == 1 {
        h - sh
    } else if stage == 2 {
        h - (sh * (e - smootherstep_spec(fraction_spec(t as int, FALL_US as int)))) / e
    } else {
        h as int
    }
}

/// An emote that rises from the bottom edge, stays a while, and sinks back.
#[derive(Debug)]
pub struct SlideUpEffect {
    pub screen_w: u32,
    pub screen_h: u32,
    pub emote_w: u32,
    pub emote_h: u32,
    /// Microseconds since the slide began.
    pub elapsed: u64,
    /// Left edge, in pixels.
    pub x: i64,
}

impl SlideUpEffect {
    /// Rising, holding, falling, or over (0 to 3); a stage owns the end of
    /// its time span.
    pub open spec fn stage(&self) -> int {
        if self.elapsed <= RISE_US {
            0
        } else if self.elapsed <= RISE_US + HOLD_US {
            1
        } else if self.elapsed <= SLIDE_TOTAL_US {
            2
        } else {
            3
        }
    }

    /// Microseconds spent in the current stage.
    pub open spec fn stage_time(&self) -> u64 {
        if self.stage() == 0 {
            self.elapsed
        } else if self.stage() == 1 {
            (self.elapsed - RISE_US) as u64
        } else if self.stage() == 2 {
            (self.elapsed - RISE_US - HOLD_US) as u64
        } else {
            0
        }
    }

    pub open spec fn spec_is_alive(&self) -> bool {
        self.elapsed <= SLIDE_TOTAL_US
    }

    /// The height in pixels at which the emote is drawn.
    pub open spec fn height(&self) -> int {
        scaled_height(self.emote_w, self.emote_h, SLIDE_SIZE)
    }

    /// The top edge in pixels.
    pub open spec fn y(&self) -> int {
        slide_y(self.screen_h, self.height(), self.stage(), self.stage_time())
    }

    /// The state after `dt` microseconds: the time runs on across the
    /// stages, however long the step.
    pub open spec fn stepped(&self, dt: u64) -> SlideUpEffect {
        SlideUpEffect {
            elapsed: if self.elapsed + dt > u64::MAX {
                u64::MAX
            } else {
                (self.elapsed + dt) as u64
            },
            ..*self
        }
    }

    /// A sliding emote at `x_permille` thousandths of the screen width, at
    /// the start of its rise.
    pub fn init(screen_w: u32, screen_h: u32, emote_w: u32, emote_h: u32, x_permille: u32) -> (r:
        SlideUpEffect)
        requires
            x_permille <= 1000,
        ensures
            r.spec_is_alive(),
            r.screen_w == screen_w && r.screen_h == screen_h,
            r.emote_w == emote_w && r.emote_h == emote_h,
            r.elapsed == 0,
            r.x == screen_w * x_permille / 1000,
    {
        assert((screen_w as u64) * (x_permille as u64) <= 4_294_967_295_000) by (nonlinear_arith)
            requires x_permille <= 1000, screen_w <= 4_294_967_295u32;
        let x = (screen_w as u64) * (x_permille as u64) / 1000;
        assert(x <= 4_294_967_295) by (nonlinear_arith)
            requires x == screen_w * x_permille / 1000, x_permille <= 1000, screen_w <= 4_294_967_295u32;
        SlideUpEffect { screen_w, screen_h, emote_w, emote_h, elapsed: 0, x: x as i64 }
    }

    pub fn update_dimensions(&mut self, w: u32, h: u32)
        ensures
            *final(self) == (SlideUpEffect { screen_w: w, screen_h: h, ..*old(self) }),
    {
        self.screen_w = w;
        self.screen_h = h;
    }

    /// Advances the slide by `dt` microseconds.
    pub fn update(&mut self, dt: u64)
        ensures
            *final(self) == old(self).stepped(dt),
    {
        self.elapsed = self.elapsed.saturating_add(dt);
    }

    pub fn is_alive(&self) -> (r: bool)
        ensures
            r == self.spec_is_alive(),
    {
        self.elapsed <= SLIDE_TOTAL_US
    }

    /// Where the emote is drawn: `SLIDE_SIZE` pixels wide, its height in
    /// proportion.
    pub open spec fn spec_placement(&self) -> Placement {
        Placement { x: self.x, y: self.y() as i64, width: SLIDE_SIZE, height: self.height() as u32 }
    }

    pub fn placement(&self) -> (r: Placement)
        ensures
            r == self.spec_placement(),
    {
        let sh = scaled_height_exec(self.emote_w, self.emote_h, SLIDE_SIZE);
        let h = self.screen_h as i64;
        let shi = sh as i64;
        let e = self.elapsed;
        let y: i64 = if e <= RISE_US {
            let p = fraction(e, RISE_US);
            let k = smootherstep(p);
            assert(0 <= shi * k <= 4_294_967_295_000_000) by (nonlinear_arith)
                requires 0 <= shi <= 4_294_967_295, 0 <= k <= 1_000_000;
            h - (shi * k) / EASE_ONE
        } else if e <= RISE_US + HOLD_US {
            h - shi
        } else if e <= SLIDE_TOTAL_US {
            let p = fraction(e - RISE_US - HOLD_US, FALL_US);
            let k = EASE_ONE - smootherstep(p);
            assert(0 <= shi * k <= 4_294_967_295_000_000) by (nonlinear_arith)
                requires 0 <= shi <= 4_294_967_295, 0 <= k <= 1_000_000;
            h - (shi * k) / EASE_ONE
        } else {
            h
        };
        Placement { x: self.x, y, width: SLIDE_SIZE, height: sh }
    }
}

/// Points in the chain of a crawling emote.
pub const WORM_SEGMENTS: usize = 9;

/// Head-then-tail cycles a crawling emote lives.
pub const WORM_CYCLES: u64 = 4;

/// Microseconds of one move of the head or of the tail.
pub const WORM_STEP_US: u64 = 1_000_000;

/// Width in pixels at which each point of a crawling emote is drawn.
pub const WORM_SIZE: u32 = 128;

/// Largest component of the stride of a crawling emote, in pixels.
pub const MAX_STRIDE: i64 = 1_000_000;

/// `a` moved forward by the share `k / EASE_ONE` of `s`.
pub open spec fn shifted(a: Point, s: Point, k: int) -> Point {
    Point {
        x: (a.x + (s.x * k) / (EASE_ONE as int)) as i64,
        y: (a.y + (s.y * k) / (EASE_ONE as int)) as i64,
    }
}

/// `a` moved back by the share `k / EASE_ONE` of `s`.
pub open spec fn pulled(a: Point, s: Point, k: int) -> Point {
    Point {
        x: (a.x - (s.x * k) / (EASE_ONE as int)) as i64,
        y: (a.y - (s.y * k) / (EASE_ONE as int)) as i64,
    }
}

/// `s` taken `k` times.
pub open spec fn times(s: Point, k: int) -> Point {
    Point { x: (s.x * k) as i64, y: (s.y * k) as i64 }
}

/// The point `i` of the chain while one end is driven by the share `pct`
/// of the stride `step`: with the head driven, point `i` follows the tail by
/// the eased share `i / 8` of the head's way; with the tail driven, point `i`
/// lags the head by the eased share `(9 - i) / 8` of the tail's remaining way.
pub open spec fn segment_at(drive_head: bool, tail: Point, head: Point, step: Point, pct: int, i: int) -> Point {
    let e = EASE_ONE as int;
    if drive_head {
        if i == 0 {
            tail
        } else if i == 8 {
            shifted(tail, step, pct)
        } else {
            shifted(tail, step, smootherstep_spec(i * pct / 8))
        }
    } else {
        if i == 8 {
            head
        } else if i == 0 {
            pulled(head, step, e - pct)
        } else {
            pulled(head, step, smootherstep_spec((9 - i) * e / 8) * (e - pct) / e)
        }
    }
}

/// The whole chain (see `segment_at`).
pub open spec fn chain(drive_head: bool, tail: Point, head: Point, step: Point, pct: int) -> Seq<Point> {
    Seq::new(9, |i: int| segment_at(drive_head, tail, head, step, pct, i))
}

pub open spec fn small(p: Point, bound: int) -> bool {
    -bound <= p.x <= bound && -bound <= p.y <= bound
}

proof fn lemma_scaled_share(v: int, k: int)
    requires
        -MAX_STRIDE <= v <= MAX_STRIDE,
        0 <= k <= EASE_ONE,
    ensures
        -MAX_STRIDE <= (v * k) / (EASE_ONE as int) <= MAX_STRIDE,
        k == EASE_ONE ==> (v * k) / (EASE_ONE as int) == v,
        k == 0 ==> (v * k) / (EASE_ONE as int) == 0,
{
    let e = EASE_ONE as int;
    assert(-1_000_000 * e <= v * k <= 1_000_000 * e) by (nonlinear_arith)
        requires -1_000_000 <= v <= 1_000_000, 0 <= k <= e, e == 1_000_000;
    assert(-1_000_000 <= (v * k) / e <= 1_000_000) by (nonlinear_arith)
        requires -1_000_000 * e <= v * k <= 1_000_000 * e, e == 1_000_000;
    assert(k == e ==> (v * k) / e == v) by (nonlinear_arith)
        requires e == 1_000_000;
    assert(k == 0 ==> (v * k) / e == 0) by (nonlinear_arith)
        requires e == 1_000_000;
}

fn share(v: i64, k: i64) -> (r: i64)
    requires
        -MAX_STRIDE <= v <= MAX_STRIDE,
        0 <= k <= EASE_ONE,
    ensures
        r == (v * k) / (EASE_ONE as int),
        -MAX_STRIDE <= r <= MAX_STRIDE,
{
    proof {
        lemma_scaled_share(v as int, k as int);
    }
    assert(-1_000_000_000_000 <= (v as i128) * (k as i128) <= 1_000_000_000_000) by (nonlinear_arith)
        requires -1_000_000 <= v <= 1_000_000, 0 <= k <= 1_000_000;
    div_floor((v as i128) * (k as i128), EASE_ONE as i128) as i64
}

fn segment_exec(drive_head: bool, tail: Point, head: Point, step: Point, pct: i64, i: usize) -> (r: Point)
    requires
        small(tail, 10_000_000),
        small(head, 10_000_000),
        small(step, MAX_STRIDE as int),
        0 <= pct <= EASE_ONE,
        i < 9,
    ensures
        r == segment_at(drive_head, tail, head, step, pct as int, i as int),
        small(r, 11_000_000),
{
    if drive_head {
        if i == 0 {
            tail
        } else {
            let k = if i == 8 {
                pct
            } else {
                assert(0 <= (i as int) * (pct as int) / 8 <= EASE_ONE) by (nonlinear_arith)
                    requires 0 <= i < 8, 0 <= pct <= 1_000_000;
                smootherstep((i as i64) * pct / 8)
            };
            Point { x: tail.x + share(step.x, k), y: tail.y + share(step.y, k) }
        }
    } else {
        if i == 8 {
            head
        } else {
            let k = if i == 0 {
                EASE_ONE - pct
            } else {
                assert(0 <= (9 - i as int) * 1_000_000 / 8 <= EASE_ONE) by (nonlinear_arith)
                    requires 1 <= i < 8;
                let c = smootherstep((9 - i as i64) * EASE_ONE / 8);
                assert(0 <= c * (1_000_000 - pct) / 1_000_000int <= 1_000_000) by (nonlinear_arith)
                    requires 0 <= c <= 1_000_000, 0 <= pct <= 1_000_000;
                c * (EASE_ONE - pct) / EASE_ONE
            };
            Point { x: head.x - share(step.x, k), y: head.y - share(step.y, k) }
        }
    }
}

/// An emote that crawls across the screen as a chain of nine points: the
/// head reaches one stride forward, then the tail is drawn after it.
#[derive(Debug)]
pub struct InchWormEffect {
    pub screen_w: u32,
    pub screen_h: u32,
    pub emote_w: u32,
    pub emote_h: u32,
    /// Pixels from the screen's centre, tail first.
    pub segments: Vec<Point>,
    /// Where the head goes at the end of the current cycle.
    pub target: Point,
    /// The stride of one cycle, in pixels.
    pub step: Point,
    /// Microseconds into the current move.
    pub frame_time: u64,
    /// Cycles completed.
    pub life_counter: u64,
    /// Whether the head moves now (else the tail).
    pub move_head: bool,
}

impl InchWormEffect {
    pub open spec fn tail(&self) -> Point {
        self.segments@[0]
    }

    pub open spec fn head(&self) -> Point {
        self.segments@[8]
    }

    /// The eased share of the current move that is done.
    pub open spec fn progress(&self) -> int {
        smootherstep_spec(fraction_spec(self.frame_time as int, WORM_STEP_US as int))
    }

    pub open spec fn wf(&self) -> bool {
        &&& self.segments@.len() == WORM_SEGMENTS
        &&& forall|j: int| 0 <= j < WORM_SEGMENTS ==> small(#[trigger] self.segments@[j], 11_000_000)
        &&& small(self.step, MAX_STRIDE as int)
        &&& self.life_counter <= WORM_CYCLES
        &&& self.frame_time < WORM_STEP_US
        &&& self.target == times(self.step, self.life_counter + 1)
        &&& self.move_head ==> self.tail() == times(self.step, self.life_counter as int)
            && self.head() == shifted(self.tail(), self.step, self.progress())
        &&& !self.move_head ==> self.head() == times(self.step, self.life_counter + 1)
            && self.tail() == pulled(self.head(), self.step, EASE_ONE - self.progress())
    }

    pub open spec fn spec_is_alive(&self) -> bool {
        self.life_counter < WORM_CYCLES
    }

    /// The state after `dt` microseconds: a move whose time is up ends with
    /// its end a full stride on, and the other end starts to move; each time
    /// the head starts again a cycle is counted.
    pub open spec fn stepped(&self, dt: u64) -> InchWormEffect {
        if !self.spec_is_alive() || dt == 0 {
            *self
        } else if self.frame_time + dt >= WORM_STEP_US {
            let move_head = !self.move_head;
            InchWormEffect {
                segments: self.segments,
                target: if move_head {
                    Point {
                        x: (self.target.x + self.step.x) as i64,
                        y: (self.target.y + self.step.y) as i64,
                    }
                } else {
                    self.target
                },
                frame_time: 0,
                life_counter: if move_head {
                    (self.life_counter + 1) as u64
                } else {
                    self.life_counter
                },
                move_head,
                ..*self
            }
        } else {
            InchWormEffect { frame_time: (self.frame_time + dt) as u64, ..*self }
        }
    }

    /// The chain after `dt` microseconds.
    pub open spec fn stepped_chain(&self, dt: u64) -> Seq<Point> {
        if !self.spec_is_alive() || dt == 0 {
            self.segments@
        } else if self.frame_time + dt >= WORM_STEP_US {
            chain(self.move_head, self.tail(), self.head(), self.step, EASE_ONE as int)
        } else {
            chain(
                self.move_head,
                self.tail(),
                self.head(),
                self.step,
                smootherstep_spec(
                    fraction_spec((self.frame_time + dt) as int, WORM_STEP_US as int),
                ),
            )
        }
    }

    /// A crawling emote gathered at the screen's centre, about to reach out
    /// by `step` pixels.
    pub fn init(screen_w: u32, screen_h: u32, emote_w: u32, emote_h: u32, step: Point) -> (r:
        InchWormEffect)
        requires
            small(step, MAX_STRIDE as int),
        ensures
            r.wf(),
            r.spec_is_alive(),
            r.screen_w == screen_w && r.screen_h == screen_h,
            r.emote_w == emote_w && r.emote_h == emote_h,
            r.segments@ == Seq::new(9, |i: int| Point { x: 0, y: 0 }),
            r.step == step,
            r.target == step,
            r.frame_time == 0 && r.life_counter == 0 && r.move_head,
    {
        let mut segments: Vec<Point> = Vec::new();
        let mut i: usize = 0;
        while i < WORM_SEGMENTS
            invariant
                i <= WORM_SEGMENTS,
                segments@ == Seq::new(i as nat, |j: int| Point { x: 0, y: 0 }),
            decreases WORM_SEGMENTS - i,
        {
            segments.push(Point { x: 0, y: 0 });
            i = i + 1;
            assert(segments@ =~= Seq::new(i as nat, |j: int| Point { x: 0, y: 0 }));
        }
        proof {
            lemma_smootherstep_ends();
            lemma_scaled_share(step.x as int, 0);
            lemma_scaled_share(step.y as int, 0);
            assert(fraction_spec(0, WORM_STEP_US as int) == 0);
        }
        InchWormEffect {
            screen_w,
            screen_h,
            emote_w,
            emote_h,
            segments,
            target: step,
            step,
            frame_time: 0,
            life_counter: 0,
            move_head: true,
        }
    }

    pub fn update_dimensions(&mut self, w: u32, h: u32)
        ensures
            final(self).screen_w == w && final(self).screen_h == h,
            final(self).emote_w == old(self).emote_w && final(self).emote_h == old(self).emote_h,
            final(self).segments == old(self).segments,
            final(self).target == old(self).target && final(self).step == old(self).step,
            final(self).frame_time == old(self).frame_time,
            final(self).life_counter == old(self).life_counter,
            final(self).move_head == old(self).move_head,
    {
        self.screen_w = w;
        self.screen_h = h;
    }

    /// Advances the crawl by `dt` microseconds.
    pub fn update(&mut self, dt: u64)
        requires
            old(self).wf(),
        ensures
            final(self).wf(),
            final(self).segments@ == old(self).stepped_chain(dt),
            final(self).screen_w == old(self).stepped(dt).screen_w,
            final(self).screen_h == old(self).stepped(dt).screen_h,
            final(self).emote_w == old(self).stepped(dt).emote_w,
            final(self).emote_h == old(self).stepped(dt).emote_h,
            final(self).target == old(self).stepped(dt).target,
            final(self).step == old(self).stepped(dt).step,
            final(self).frame_time == old(self).stepped(dt).frame_time,
            final(self).life_counter == old(self).stepped(dt).life_counter,
            final(self).move_head == old(self).stepped(dt).move_head,
    {
        if self.life_counter >= WORM_CYCLES || dt == 0 {
            return;
        }
        let ghost pre = *self;
        proof {
            lemma_worm_ends(pre);
        }
        let tail = self.segments[0];
        let head = self.segments[8];
        let step = self.step;
        let (pct, drive_head) = if dt >= WORM_STEP_US - self.frame_time {
            self.frame_time = 0;
            self.move_head = !self.move_head;
            if self.move_head {
                self.life_counter = self.life_counter + 1;
                self.target = Point { x: self.target.x + step.x, y: self.target.y + step.y };
            }
            (EASE_ONE, !self.move_head)
        } else {
            self.frame_time = self.frame_time + dt;
            (smootherstep(fraction(self.frame_time, WORM_STEP_US)), self.move_head)
        };
        let mut segments: Vec<Point> = Vec::new();
        let mut i: usize = 0;
        while i < WORM_SEGMENTS
            invariant
                i <= WORM_SEGMENTS,
                small(tail, 10_000_000),
                small(head, 10_000_000),
                small(step, MAX_STRIDE as int),
                0 <= pct <= EASE_ONE,
                segments@ == Seq::new(
                    i as nat,
                    |j: int| segment_at(drive_head, tail, head, step, pct as int, j),
                ),
                forall|j: int| 0 <= j < i ==> small(#[trigger] segments@[j], 11_000_000),
            decreases WORM_SEGMENTS - i,
        {
            let p = segment_exec(drive_head, tail, head, step, pct, i);
            segments.push(p);
            i = i + 1;
            assert(segments@ =~= Seq::new(
                i as nat,
                |j: int| segment_at(drive_head, tail, head, step, pct as int, j),
            ));
        }
        self.segments = segments;
        proof {
            let post = *self;
            assert(post.segments@ =~= pre.stepped_chain(dt));
            lemma_smootherstep_ends();
            lemma_scaled_share(step.x as int, 0);
            lemma_scaled_share(step.y as int, 0);
            lemma_scaled_share(step.x as int, EASE_ONE as int);
            lemma_scaled_share(step.y as int, EASE_ONE as int);
            assert(fraction_spec(0, WORM_STEP_US as int) == 0);
            lemma_times_next(step, pre.life_counter as int);
            lemma_times_next(step, pre.life_counter + 1);
            assert(post.segments@[0] == segment_at(drive_head, tail, head, step, pct as int, 0));
            assert(post.segments@[8] == segment_at(drive_head, tail, head, step, pct as int, 8));
            if post.frame_time == 0 {
                assert(post.progress() == 0);
            } else {
                assert(post.progress() == pct);
            }
        }
    }

    pub fn is_alive(&self) -> (r: bool)
        ensures
            r == self.spec_is_alive(),
    {
        self.life_counter < WORM_CYCLES
    }

    pub open spec fn spec_segment_placement(&self, i: int) -> Placement {
        Placement {
            x: (self.segments@[i].x + self.screen_w / 2) as i64,
            y: (self.segments@[i].y + self.screen_h / 2) as i64,
            width: WORM_SIZE,
            height: scaled_height(self.emote_w, self.emote_h, WORM_SIZE) as u32,
        }
    }

    /// Where each point of the chain is drawn, tail first: offset by half
    /// the screen, `WORM_SIZE` pixels wide, its height in proportion.
    pub fn placements(&self) -> (r: Vec<Placement>)
        requires
            self.wf(),
        ensures
            r@.len() == WORM_SEGMENTS,
            forall|i: int| 0 <= i < WORM_SEGMENTS ==> #[trigger] r@[i] == self.spec_segment_placement(i),
    {
        let height = scaled_height_exec(self.emote_w, self.emote_h, WORM_SIZE);
        let hw = (self.screen_w / 2) as i64;
        let hh = (self.screen_h / 2) as i64;
        let mut out: Vec<Placement> = Vec::new();
        let mut i: usize = 0;
        while i < WORM_SEGMENTS
            invariant
                i <= WORM_SEGMENTS,
                self.wf(),
                hw == self.screen_w / 2,
                hh == self.screen_h / 2,
                height == scaled_height(self.emote_w, self.emote_h, WORM_SIZE),
                out@.len() == i,
                forall|j: int|
                    0 <= j < i ==> #[trigger] out@[j] == (Placement {
                        x: (self.segments@[j].x + self.screen_w / 2) as i64,
                        y: (self.segments@[j].y + self.screen_h / 2) as i64,
                        width: WORM_SIZE,
                        height: height,
                    }),
            decreases WORM_SEGMENTS - i,
        {
            let s = self.segments[i];
            out.push(Placement { x: s.x + hw, y: s.y + hh, width: WORM_SIZE, height });
            i = i + 1;
        }
        out
    }
}

proof fn lemma_times_next(s: Point, k: int)
    requires
        small(s, MAX_STRIDE as int),
        0 <= k <= WORM_CYCLES,
    ensures
        small(times(s, k), 4_000_000),
        small(times(s, k + 1), 5_000_000),
        times(s, k + 1) == (Point { x: (times(s, k).x + s.x) as i64, y: (times(s, k).y + s.y) as i64 }),
{
    assert(-4_000_000 <= s.x * k <= 4_000_000) by (nonlinear_arith)
        requires -1_000_000 <= s.x <= 1_000_000, 0 <= k <= 4;
    assert(-4_000_000 <= s.y * k <= 4_000_000) by (nonlinear_arith)
        requires -1_000_000 <= s.y <= 1_000_000, 0 <= k <= 4;
    assert(s.x * (k + 1) == s.x * k + s.x) by (nonlinear_arith);
    assert(s.y * (k + 1) == s.y * k + s.y) by (nonlinear_arith);
}

/// Both ends of a well-formed chain lie near the origin.
proof fn lemma_worm_ends(w: InchWormEffect)
    requires
        w.wf(),
    ensures
        small(w.tail(), 10_000_000),
        small(w.head(), 10_000_000),
{
    lemma_times_next(w.step, w.life_counter as int);
    let f = fraction_spec(w.frame_time as int, WORM_STEP_US as int);
    assert(0 <= f <= EASE_ONE) by (nonlinear_arith)
        requires f == (w.frame_time as int) * 1_000_000 / 1_000_000, 0 <= w.frame_time < 1_000_000;
    crate::easing::lemma_smootherstep_range(f);
    lemma_scaled_share(w.step.x as int, w.progress());
    lemma_scaled_share(w.step.y as int, w.progress());
    lemma_scaled_share(w.step.x as int, EASE_ONE - w.progress());
    lemma_scaled_share(w.step.y as int, EASE_ONE - w.progress());
}

/// A move of any length that meets a side wall reverses the horizontal
/// speed, keeping its size.
pub proof fn lemma_gravity_wall_reflects(s: GravityEffect, dt: u64)
    requires
        s.wf(),
        dt > 0,
        s.hits_wall(dt),
    ensures
        s.stepped(dt).vel.x == -s.vel.x,
{
}

/// Meeting a side wall reverses the horizontal speed and leaves the
/// vertical motion exactly as it would be without the wall: where the floor
/// is not met, gravity adds `g * dt` to the vertical speed and the new speed
/// moves the emote, within the bounds that keep the numbers in range.
pub proof fn lemma_gravity_wall_keeps_vertical(s: GravityEffect, dt: u64)
    requires
        s.wf(),
        dt > 0,
        s.hits_wall(dt),
        !s.hits_floor(dt),
        -MAX_SPEED <= s.vel.y + s.g * dt <= MAX_SPEED,
        -MAX_COORD <= s.pos.y + ((s.vel.y + s.g * dt) * dt) / (MICROS as int) <= MAX_COORD,
    ensures
        s.stepped(dt).vel.x == -s.vel.x,
        s.stepped(dt).vel.y == s.vel.y + s.g * dt,
        s.stepped(dt).pos.y == s.pos.y + (s.stepped(dt).vel.y * dt) / (MICROS as int),
{
}

/// A slide starts with the emote just below the screen's bottom edge, shows
/// it whole at the end of its hold, and ends exactly when more time than its
/// three stages together has passed since it began, in steps of any size:
/// never before.
pub proof fn lemma_slide_up_course(s: SlideUpEffect, dt: u64)
    ensures
        s.elapsed == 0 ==> s.y() == s.screen_h,
        s.elapsed == RISE_US + HOLD_US ==> s.y() == s.screen_h - s.height(),
        s.stepped(dt).spec_is_alive() <==> s.elapsed + dt <= SLIDE_TOTAL_US,
{
    lemma_smootherstep_ends();
    assert(fraction_spec(0, RISE_US as int) == 0);
    let sh = s.height();
    assert((sh * 0) / (EASE_ONE as int) == 0) by (nonlinear_arith);
}

/// The sum of the steps `ds`.
pub open spec fn total_time(ds: Seq<u64>) -> int
    decreases ds.len(),
{
    if ds.len() == 0 {
        0
    } else {
        total_time(ds.drop_last()) + ds.last()
    }
}

/// The slide after updates by each step of `ds`, in order.
pub open spec fn slide_run(s: SlideUpEffect, ds: Seq<u64>) -> SlideUpEffect
    decreases ds.len(),
{
    if ds.len() == 0 {
        s
    } else {
        slide_run(s, ds.drop_last()).stepped(ds.last())
    }
}

proof fn lemma_slide_run_elapsed(s: SlideUpEffect, ds: Seq<u64>)
    ensures
        total_time(ds) >= 0,
        slide_run(s, ds).elapsed == if s.elapsed + total_time(ds) > u64::MAX {
            u64::MAX as int
        } else {
            s.elapsed + total_time(ds)
        },
    decreases ds.len(),
{
    if ds.len() > 0 {
        lemma_slide_run_elapsed(s, ds.drop_last());
    }
}

/// However the time is cut into updates, a slide lives exactly while the
/// time since it began is at most `SLIDE_TOTAL_US`, and once it has ended
/// it never runs again.
pub proof fn lemma_slide_up_lifetime(s: SlideUpEffect, ds: Seq<u64>, more: Seq<u64>)
    ensures
        slide_run(s, ds).spec_is_alive() <==> s.elapsed + total_time(ds) <= SLIDE_TOTAL_US,
        !slide_run(s, ds).spec_is_alive() ==> !slide_run(s, ds + more).spec_is_alive(),
{
    lemma_slide_run_elapsed(s, ds);
    lemma_slide_run_elapsed(s, ds + more);
    lemma_total_concat(ds, more);
}

proof fn lemma_total_concat(a: Seq<u64>, b: Seq<u64>)
    ensures
        total_time(a + b) == total_time(a) + total_time(b),
        total_time(b) >= 0,
    decreases b.len(),
{
    if b.len() == 0 {
        assert(a + b =~= a);
    } else {
        lemma_total_concat(a, b.drop_last());
        assert((a + b).drop_last() =~= a + b.drop_last());
    }
}

/// The crawl after updates by each step of `ds`, in order.
pub open spec fn worm_run(w: InchWormEffect, ds: Seq<u64>) -> InchWormEffect
    decreases ds.len(),
{
    if ds.len() == 0 {
        w
    } else {
        worm_run(w, ds.drop_last()).stepped(ds.last())
    }
}

proof fn lemma_worm_run_concat(w: InchWormEffect, a: Seq<u64>, b: Seq<u64>)
    ensures
        worm_run(w, a + b) == worm_run(worm_run(w, a), b),
    decreases b.len(),
{
    if b.len() == 0 {
        assert(a + b =~= a);
    } else {
        lemma_worm_run_concat(w, a, b.drop_last());
        assert((a + b).drop_last() =~= a + b.drop_last());
    }
}

proof fn lemma_worm_run_ended(w: InchWormEffect, ds: Seq<u64>)
    requires
        !w.spec_is_alive(),
    ensures
        worm_run(w, ds) == w,
    decreases ds.len(),
{
    if ds.len() > 0 {
        lemma_worm_run_ended(w, ds.drop_last());
    }
}

proof fn lemma_worm_run_count(w: InchWormEffect, ds: Seq<u64>)
    requires
        w.life_counter <= WORM_CYCLES,
    ensures
        w.life_counter <= worm_run(w, ds).life_counter <= WORM_CYCLES,
        worm_run(w, ds).life_counter <= w.life_counter + ds.len(),
    decreases ds.len(),
{
    if ds.len() > 0 {
        lemma_worm_run_count(w, ds.drop_last());
    }
}

/// However the time is cut into updates, a crawl counts each completed
/// head-then-tail cycle once, at most one per update, lives exactly while
/// fewer than `WORM_CYCLES` are complete, and once it has ended it never
/// runs again.
pub proof fn lemma_inch_worm_lifetime(w: InchWormEffect, ds: Seq<u64>, more: Seq<u64>)
    requires
        w.life_counter <= WORM_CYCLES,
    ensures
        worm_run(w, ds).spec_is_alive() <==> worm_run(w, ds).life_counter < WORM_CYCLES,
        w.life_counter <= worm_run(w, ds).life_counter <= w.life_counter + ds.len(),
        !worm_run(w, ds).spec_is_alive() ==> worm_run(w, ds + more) == worm_run(w, ds),
{
    lemma_worm_run_count(w, ds);
    lemma_worm_run_concat(w, ds, more);
    if !worm_run(w, ds).spec_is_alive() {
        lemma_worm_run_ended(worm_run(w, ds), more);
    }
}

/// Whenever a crawling emote has just completed a cycle, its tail and its
/// head both stand where it started, moved by the strides of all completed
/// cycles; it lives exactly while fewer than `WORM_CYCLES` are complete.
pub proof fn lemma_inch_worm_cycles(w: InchWormEffect)
    requires
        w.wf(),
        w.move_head,
        w.frame_time == 0,
    ensures
        w.tail() == times(w.step, w.life_counter as int),
        w.head() == w.tail(),
        w.spec_is_alive() <==> w.life_counter < WORM_CYCLES,
{
    lemma_smootherstep_ends();
    assert(fraction_spec(0, WORM_STEP_US as int) == 0);
    lemma_scaled_share(w.step.x as int, 0);
    lemma_scaled_share(w.step.y as int, 0);
    lemma_times_next(w.step, w.life_counter as int);
}

/// The motion behaviour of an emote on screen.
#[derive(Debug)]
pub enum EmoteEffect {
    Gravity(GravityEffect),
    SlideUp(SlideUpEffect),
    InchWorm(InchWormEffect),
}

impl EmoteEffect {
    pub open spec fn wf(&self) -> bool {
        match self {
            EmoteEffect::Gravity(e) => e.wf(),
            EmoteEffect::SlideUp(_) => true,
            EmoteEffect::InchWorm(e) => e.wf(),
        }
    }

    pub open spec fn spec_is_alive(&self) -> bool {
        match self {
            EmoteEffect::Gravity(e) => e.spec_is_alive(),
            EmoteEffect::SlideUp(e) => e.spec_is_alive(),
            EmoteEffect::InchWorm(e) => e.spec_is_alive(),
        }
    }

    /// The screen size the behaviour moves on.
    pub open spec fn screen(&self) -> (u32, u32) {
        match self {
            EmoteEffect::Gravity(e) => (e.screen_w, e.screen_h),
            EmoteEffect::SlideUp(e) => (e.screen_w, e.screen_h),
            EmoteEffect::InchWorm(e) => (e.screen_w, e.screen_h),
        }
    }

    /// Whether the behaviour still runs after `dt` more microseconds.
    pub open spec fn survives(&self, dt: u64) -> bool {
        match self {
            EmoteEffect::Gravity(e) => e.stepped(dt).spec_is_alive(),
            EmoteEffect::SlideUp(e) => e.stepped(dt).spec_is_alive(),
            EmoteEffect::InchWorm(e) => e.stepped(dt).spec_is_alive(),
        }
    }

    pub proof fn lemma_survives(o: EmoteEffect, n: EmoteEffect, dt: u64)
        requires
            EmoteEffect::advanced(o, n, dt),
        ensures
            n.spec_is_alive() == o.survives(dt),
    {
    }

    /// Whether `n` is the behaviour `o` advanced by `dt` microseconds.
    pub open spec fn advanced(o: EmoteEffect, n: EmoteEffect, dt: u64) -> bool {
        match (o, n) {
            (EmoteEffect::Gravity(a), EmoteEffect::Gravity(b)) => b == a.stepped(dt),
            (EmoteEffect::SlideUp(a), EmoteEffect::SlideUp(b)) => b == a.stepped(dt),
            (EmoteEffect::InchWorm(a), EmoteEffect::InchWorm(b)) => {
                let c = a.stepped(dt);
                &&& b.segments@ == a.stepped_chain(dt)
                &&& b.screen_w == c.screen_w && b.screen_h == c.screen_h
                &&& b.emote_w == c.emote_w && b.emote_h == c.emote_h
                &&& b.target == c.target && b.step == c.step
                &&& b.frame_time == c.frame_time && b.life_counter == c.life_counter
                &&& b.move_head == c.move_head
            },
            _ => false,
        }
    }

    /// Whether `n` is `o` on a screen of `w` by `h` pixels, all else kept.
    pub open spec fn resized(o: EmoteEffect, n: EmoteEffect, w: u32, h: u32) -> bool {
        match (o, n) {
            (EmoteEffect::Gravity(a), EmoteEffect::Gravity(b)) => b == (GravityEffect {
                screen_w: w,
                screen_h: h,
                ..a
            }),
            (EmoteEffect::SlideUp(a), EmoteEffect::SlideUp(b)) => b == (SlideUpEffect {
                screen_w: w,
                screen_h: h,
                ..a
            }),
            (EmoteEffect::InchWorm(a), EmoteEffect::InchWorm(b)) => {
                &&& b.screen_w == w && b.screen_h == h
                &&& b.emote_w == a.emote_w && b.emote_h == a.emote_h
                &&& b.segments == a.segments
                &&& b.target == a.target && b.step == a.step
                &&& b.frame_time == a.frame_time && b.life_counter == a.life_counter
                &&& b.move_head == a.move_head
            },
            _ => false,
        }
    }

    /// Follows a change of the screen's size.
    pub fn update_dimensions(&mut self, w: u32, h: u32)
        requires
            old(self).wf(),
        ensures
            final(self).wf(),
            final(self).spec_is_alive() == old(self).spec_is_alive(),
            EmoteEffect::resized(*old(self), *final(self), w, h),
    {
        match self {
            EmoteEffect::Gravity(e) => e.update_dimensions(w, h),
            EmoteEffect::SlideUp(e) => e.update_dimensions(w, h),
            EmoteEffect::InchWorm(e) => e.update_dimensions(w, h),
        }
    }

    /// Advances the behaviour by `dt` microseconds.
    pub fn update(&mut self, dt: u64)
        requires
            old(self).wf(),
        ensures
            final(self).wf(),
            EmoteEffect::advanced(*old(self), *final(self), dt),
    {
        match self {
            EmoteEffect::Gravity(e) => e.update(dt),
            EmoteEffect::SlideUp(e) => e.update(dt),
            EmoteEffect::InchWorm(e) => e.update(dt),
        }
    }

    /// Whether the behaviour still runs; once it stops, it never runs again.
    pub fn is_alive(&self) -> (r: bool)
        ensures
            r == self.spec_is_alive(),
    {
        match self {
            EmoteEffect::Gravity(e) => e.is_alive(),
            EmoteEffect::SlideUp(e) => e.is_alive(),
            EmoteEffect::InchWorm(e) => e.is_alive(),
        }
    }

    /// Whether `v` lists where the behaviour draws its frame.
    pub open spec fn placed(&self, v: Seq<Placement>) -> bool {
        match self {
            EmoteEffect::Gravity(e) => v == seq![e.spec_placement()],
            EmoteEffect::SlideUp(e) => v == seq![e.spec_placement()],
            EmoteEffect::InchWorm(e) => v.len() == WORM_SEGMENTS && forall|i: int|
                0 <= i < WORM_SEGMENTS ==> #[trigger] v[i] == e.spec_segment_placement(i),
        }
    }

    /// Where the frame is drawn: once for the falling and the sliding emote,
    /// once for each point of a crawling one.
    pub fn placements(&self) -> (r: Vec<Placement>)
        requires
            self.wf(),
        ensures
            self.placed(r@),
    {
        match self {
            EmoteEffect::Gravity(e) => {
                let mut v: Vec<Placement> = Vec::new();
                v.push(e.placement());
                assert(v@ =~= seq![e.spec_placement()]);
                v
            },
            EmoteEffect::SlideUp(e) => {
                let mut v: Vec<Placement> = Vec::new();
                v.push(e.placement());
                assert(v@ =~= seq![e.spec_placement()]);
                v
            },
            EmoteEffect::InchWorm(e) => e.placements(),
        }
    }
}

} // verus!
