use emojikanban::easing::{div_floor, fraction, smootherstep, EASE_ONE};
use emojikanban::effects::{
    EmoteEffect, GravityEffect, InchWormEffect, Point, SlideUpEffect, FALL_US, HOLD_US, RISE_US,
    SLIDE_SIZE, SLIDE_TOTAL_US, WORM_CYCLES, WORM_SIZE,
};

#[test]
fn smootherstep_values() {
    assert_eq!(smootherstep(0), 0);
    assert_eq!(smootherstep(EASE_ONE), EASE_ONE);
    assert_eq!(smootherstep(EASE_ONE / 2), EASE_ONE / 2);
    // 6(1/4)^5 - 15(1/4)^4 + 10(1/4)^3 = 0.103515625
    assert_eq!(smootherstep(250_000), 103_515);
    assert_eq!(fraction(1, 4), 250_000);
    assert_eq!(div_floor(-7, 2), -4);
    assert_eq!(div_floor(7, 2), 3);
}

fn falling(x: i64, y: i64, vx: i64, vy: i64) -> GravityEffect {
    let mut g = GravityEffect::init(1000, 500, 100, 50, 1800, 600, 500, 0, 3_000_000);
    g.pos = Point { x, y };
    g.vel = Point { x: vx, y: vy };
    g
}

#[test]
fn gravity_init_from_draws() {
    let g = GravityEffect::init(1920, 1080, 112, 112, 1800, 600, 100, -150, 2_000_000);
    assert_eq!(g.pos, Point { x: 192_000_000, y: 0 });
    assert_eq!(g.vel, Point { x: -288_000_000, y: 0 });
    assert!(g.is_alive());
}

#[test]
fn gravity_semi_implicit_step() {
    let mut g = falling(100_000_000, 0, 2_000_000, 0);
    g.update(100_000);
    // vy = 1800 px/s^2 * 0.1 s = 180 px/s; y = 180 * 0.1 = 18 px; x = 2 * 0.1 = 0.2 px
    assert_eq!(g.vel.y, 180_000_000);
    assert_eq!(g.pos.y, 18_000_000);
    assert_eq!(g.pos.x, 100_200_000);
    assert_eq!(g.life_lived, 100_000);
    assert_eq!(g.placement().y, 18);
}

#[test]
fn gravity_never_passes_the_floor() {
    let floor = (500 - 50) * 1_000_000;
    let mut g = falling(100_000_000, 440_000_000, 0, 500_000_000);
    g.update(1_000_000);
    assert_eq!(g.pos.y, floor);
    // the speed 500 + 1800 = 2300 px/s is reflected and kept at 60%
    assert_eq!(g.vel.y, -1_380_000_000);
    let mut h = falling(100_000_000, 0, 0, 0);
    h.update(u64::MAX);
    assert!(h.pos.y <= floor);
    assert!(!h.is_alive());
}

#[test]
fn gravity_wall_reflects_horizontal_speed_only() {
    let mut g = falling(10_000_000, 0, -50_000_000, 0);
    let mut free = falling(500_000_000, 0, -50_000_000, 0);
    g.update(1_000_000);
    free.update(1_000_000);
    assert_eq!(g.pos.x, 0);
    assert_eq!(g.vel.x, 50_000_000);
    assert_eq!(g.vel.y, free.vel.y);
    let mut r = falling(890_000_000, 0, 50_000_000, 0);
    r.update(1_000_000);
    assert_eq!(r.vel.x, -50_000_000);
    assert!(r.pos.x < (1000 - 100) * 1_000_000);
}

#[test]
fn gravity_zero_step_changes_nothing() {
    let mut g = falling(10, 20, 30, 40);
    g.update(0);
    assert_eq!(g.pos, Point { x: 10, y: 20 });
    assert_eq!(g.vel, Point { x: 30, y: 40 });
    assert_eq!(g.life_lived, 0);
}

#[test]
fn slide_up_course() {
    let mut s = SlideUpEffect::init(1920, 1080, 64, 32, 500);
    assert_eq!(s.x, 960);
    let p = s.placement();
    assert_eq!((p.y, p.width, p.height), (1080, SLIDE_SIZE, 256));
    s.update(RISE_US / 2);
    assert_eq!(s.placement().y, 1080 - 128);
    s.update(RISE_US / 2);
    assert_eq!(s.placement().y, 1080 - 256);
    s.update(1);
    assert_eq!(s.placement().y, 1080 - 256);
    s.update(HOLD_US - 1);
    assert_eq!(s.elapsed, RISE_US + HOLD_US);
    assert_eq!(s.placement().y, 1080 - 256);
    s.update(FALL_US / 2);
    assert_eq!(s.placement().y, 1080 - 128);
    s.update(FALL_US / 2);
    assert!(s.is_alive());
    assert_eq!(s.placement().y, 1080);
    s.update(1);
    assert!(!s.is_alive());
    s.update(5);
    assert!(!s.is_alive());
}

#[test]
fn slide_up_ends_after_its_total_time_in_any_steps() {
    let mut s = SlideUpEffect::init(1920, 1080, 128, 128, 500);
    for _ in 0..8 {
        s.update(1_000_000);
        assert!(s.is_alive());
    }
    s.update(1_000_000);
    assert!(!s.is_alive());
    let mut once = SlideUpEffect::init(1920, 1080, 128, 128, 500);
    once.update(100_000_000);
    assert!(!once.is_alive());
    let mut exact = SlideUpEffect::init(1920, 1080, 128, 128, 500);
    exact.update(SLIDE_TOTAL_US);
    assert!(exact.is_alive());
    exact.update(0);
    assert!(exact.is_alive());
    exact.update(1);
    assert!(!exact.is_alive());
}

#[test]
fn inch_worm_cycles() {
    let step = Point { x: 300, y: -400 };
    let mut w = InchWormEffect::init(1000, 800, 64, 64, step);
    assert_eq!(w.segments.len(), 9);
    w.update(500_000);
    // half way: the head has covered half the stride
    assert_eq!(w.segments[8], Point { x: 150, y: -200 });
    assert_eq!(w.segments[0], Point { x: 0, y: 0 });
    w.update(500_000);
    assert_eq!(w.segments[8], step);
    assert!(!w.move_head);
    w.update(1_000_000);
    assert!(w.move_head);
    assert_eq!(w.life_counter, 1);
    assert_eq!(w.segments[0], step);
    assert_eq!(w.segments[8], step);
    for k in 2..=WORM_CYCLES {
        assert!(w.is_alive());
        w.update(1_000_000);
        w.update(1_000_000);
        assert_eq!(w.life_counter, k);
        let expect = Point { x: 300 * k as i64, y: -400 * k as i64 };
        assert_eq!(w.segments[0], expect);
        assert_eq!(w.segments[8], expect);
    }
    assert!(!w.is_alive());
    let p = w.placements();
    assert_eq!(p.len(), 9);
    assert_eq!((p[0].x, p[0].y, p[0].width, p[0].height), (1200 + 500, -1600 + 400, WORM_SIZE, 128));
}

#[test]
fn effect_dispatch() {
    let mut e = EmoteEffect::SlideUp(SlideUpEffect::init(100, 100, 10, 10, 0));
    assert!(e.is_alive());
    e.update_dimensions(200, 300);
    assert_eq!(e.placements()[0].y, 300);
    e.update(RISE_US + 1);
    e.update(HOLD_US + 1);
    e.update(FALL_US + 1);
    assert!(!e.is_alive());
}
