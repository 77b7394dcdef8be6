use emojikanban::effects::{EmoteEffect, GravityEffect, Point, SlideUpEffect};
use emojikanban::plugin::{
    choose_effect, isqrt, random_draws, ring_candidate, ring_from_leg, shape_draws, EffectDraws, EmojiKanBan,
    EmoteData, EmoteOBS,
};
use image::{DynamicImage, ImageFormat, Rgba, RgbaImage};

fn png() -> Vec<u8> {
    let img = RgbaImage::from_pixel(8, 4, Rgba([1, 2, 3, 255]));
    let mut out = std::io::Cursor::new(Vec::new());
    DynamicImage::ImageRgba8(img).write_to(&mut out, ImageFormat::Png).unwrap();
    out.into_inner()
}

fn data(id: &str) -> EmoteData {
    EmoteData { id: id.to_string(), name: format!("e{}", id), img: png() }
}

fn draws(pick: u32) -> EffectDraws {
    EffectDraws {
        pick,
        x_permille: 500,
        vx_permille: 0,
        life_us: 1_000_000,
        slide_x_permille: 250,
        worm_step: Point { x: 504, y: 0 },
    }
}

#[test]
fn queue_capacity_refuses_the_extra_emote() {
    let n = 5;
    let mut q = EmojiKanBan::new(1920, 1080, 0, 0, n);
    let mut refused = 0;
    for i in 0..=n {
        if !q.admit_data(data(&i.to_string()), draws(50)) {
            refused += 1;
        }
    }
    assert_eq!(q.emote_queue.len(), n as usize);
    assert_eq!(refused, 1);
    assert_eq!(q.emote_queue[4].name, "e4");
}

#[test]
fn queue_capacity_any_order() {
    let mut q = EmojiKanBan::new(1920, 1080, 0, 0, 2);
    let picks = [5, 25, 90];
    let mut accepted = vec![];
    for (i, p) in picks.iter().enumerate() {
        accepted.push(q.admit_data(data(&i.to_string()), draws(*p)));
    }
    assert_eq!(accepted, vec![true, true, false]);
    assert!(matches!(q.emote_queue[0].effect, Some(EmoteEffect::SlideUp(_))));
    assert!(matches!(q.emote_queue[1].effect, Some(EmoteEffect::InchWorm(_))));
}

#[test]
fn video_tick_capacity_plus_one() {
    let n = 4;
    let mut q = EmojiKanBan::new(1920, 1080, 0, 0, n);
    let arrivals: Vec<EmoteData> = (0..=n).map(|i| data(&i.to_string())).collect();
    q.video_tick(arrivals, 0);
    assert_eq!(q.emote_queue.len(), n as usize);
    let names: Vec<&str> = q.emote_queue.iter().map(|e| e.name.as_str()).collect();
    assert_eq!(names, vec!["e0", "e1", "e2", "e3"]);
}

#[test]
fn video_tick_skips_undecodable_and_uses_current_screen() {
    let mut q = EmojiKanBan::new(1920, 1080, 0, 0, 5);
    let bad = EmoteData { id: "b".to_string(), name: "bad".to_string(), img: vec![7; 12] };
    q.video_tick(vec![data("1"), bad, data("2")], 0);
    assert_eq!(q.emote_queue.len(), 2);
    assert_eq!(q.emote_queue[1].name, "e2");
    q.screen_w = 640;
    q.screen_h = 480;
    q.video_tick(vec![], 0);
    for e in &q.emote_queue {
        let (w, h) = match e.effect.as_ref().unwrap() {
            EmoteEffect::Gravity(g) => (g.screen_w, g.screen_h),
            EmoteEffect::SlideUp(s) => (s.screen_w, s.screen_h),
            EmoteEffect::InchWorm(w) => (w.screen_w, w.screen_h),
        };
        assert_eq!((w, h), (640, 480));
    }
}

#[test]
fn lowering_the_bound_trims_the_queue() {
    let mut q = EmojiKanBan::new(1920, 1080, 0, 0, 5);
    q.video_tick(vec![data("1"), data("2"), data("3")], 0);
    q.set_max_length(2);
    assert_eq!(q.emote_queue.len(), 2);
    assert_eq!(q.emote_queue[1].name, "e2");
    q.set_max_length(10);
    assert_eq!(q.emote_queue.len(), 2);
}

#[test]
fn undecodable_emote_is_not_admitted() {
    let mut q = EmojiKanBan::new(100, 100, 0, 0, 3);
    let bad = EmoteData { id: "1".to_string(), name: "x".to_string(), img: vec![0; 10] };
    assert!(!q.admit_data(bad, draws(50)));
    assert!(q.emote_queue.is_empty());
}

#[test]
fn admit_emote_when_full_drops() {
    let mut q = EmojiKanBan::new(100, 100, 0, 0, 0);
    let e = EmoteOBS::from(data("1"));
    let effect = EmoteEffect::SlideUp(SlideUpEffect::init(100, 100, 8, 4, 0));
    assert!(!q.admit_emote(e, effect));
    assert!(q.emote_queue.is_empty());
}

#[test]
fn tick_prunes_ended_emotes() {
    let mut q = EmojiKanBan::new(1000, 1000, 0, 0, 10);
    let mut long = draws(50);
    long.life_us = 5_000_000;
    assert!(q.admit_data(data("short"), draws(50)));
    assert!(q.admit_data(data("long"), long));
    q.advance(500_000);
    assert_eq!(q.emote_queue.len(), 2);
    q.advance(600_000);
    assert_eq!(q.emote_queue.len(), 1);
    assert_eq!(q.emote_queue[0].name, "elong");
    let snap = q.snapshot();
    assert_eq!(snap.len(), 1);
    assert_eq!(snap[0].len(), 1);
    q.set_screen(500, 500);
    assert_eq!(q.get_width(), 500);
    match &q.emote_queue[0].effect {
        Some(EmoteEffect::Gravity(g)) => assert_eq!(g.screen_w, 500),
        _ => panic!("expected a falling emote"),
    }
}

#[test]
fn video_tick_admits_and_advances() {
    let mut q = EmojiKanBan::new(1920, 1080, 0, 0, 2);
    q.video_tick(vec![data("1"), data("2"), data("3")], 0);
    assert_eq!(q.emote_queue.len(), 2);
    for e in &q.emote_queue {
        assert!(e.is_alive());
    }
    for _ in 0..20 {
        q.video_tick(vec![], 10_000_000);
    }
    assert!(q.emote_queue.is_empty());
}

#[test]
fn effect_choice_by_pick() {
    assert!(matches!(choose_effect(draws(1), 100, 100, 8, 8), EmoteEffect::SlideUp(_)));
    assert!(matches!(choose_effect(draws(10), 100, 100, 8, 8), EmoteEffect::SlideUp(_)));
    assert!(matches!(choose_effect(draws(11), 100, 100, 8, 8), EmoteEffect::InchWorm(_)));
    assert!(matches!(choose_effect(draws(30), 100, 100, 8, 8), EmoteEffect::InchWorm(_)));
    match choose_effect(draws(31), 100, 100, 8, 8) {
        EmoteEffect::Gravity(g) => {
            assert_eq!(g.g, 1800);
            assert_eq!(g.bounce, 600);
            assert_eq!(g.pos.x, 50_000_000);
        }
        _ => panic!("expected a falling emote"),
    }
    let _ = GravityEffect::init(1, 1, 1, 1, 0, 0, 0, 0, 0);
}

#[test]
fn random_draws_stay_in_range() {
    for _ in 0..200 {
        let d = random_draws();
        assert!((1..=100).contains(&d.pick));
        assert!((100..900).contains(&d.x_permille));
        assert!((-150..150).contains(&d.vx_permille));
        assert!((2_000_000..5_000_000).contains(&d.life_us));
        assert!((150..=750).contains(&d.slide_x_permille));
        let r2 = d.worm_step.x * d.worm_step.x + d.worm_step.y * d.worm_step.y;
        assert!(r2 <= 504 * 504 && r2 > 503 * 503 - 1100);
    }
}

#[test]
fn integer_square_root() {
    assert_eq!(isqrt(0), 0);
    assert_eq!(isqrt(15), 3);
    assert_eq!(isqrt(16), 4);
    assert_eq!(isqrt(254016), 504);
    assert_eq!(isqrt(1_000_000_000_001), 1_000_000);
    assert_eq!(isqrt(u64::MAX), 4_294_967_295);
}

#[test]
fn shaped_draws_are_offset_raw_draws() {
    let d = shape_draws(0, 799, 0, 2_999_999, 600, Point { x: 3, y: -4 });
    assert_eq!(d.pick, 1);
    assert_eq!(d.x_permille, 899);
    assert_eq!(d.vx_permille, -150);
    assert_eq!(d.life_us, 4_999_999);
    assert_eq!(d.slide_x_permille, 750);
    assert_eq!(d.worm_step, Point { x: 3, y: -4 });
}

#[test]
fn ring_strides() {
    assert_eq!(ring_candidate(1008, 504), Some(Point { x: 504, y: 0 }));
    assert_eq!(ring_candidate(504, 0), Some(Point { x: 0, y: -504 }));
    assert_eq!(ring_candidate(504, 504), None);
    assert_eq!(ring_candidate(0, 0), None);
    // 300^2 + 405^2 = 254025 is outside; 300^2 + 404^2 = 253216 is inside
    assert_eq!(ring_candidate(804, 908), Some(Point { x: 300, y: 404 }));
    assert_eq!(ring_candidate(804, 909), None);
    assert_eq!(ring_from_leg(804, false), Point { x: 300, y: 404 });
    assert_eq!(ring_from_leg(804, true), Point { x: 300, y: -404 });
    assert_eq!(ring_from_leg(0, false), Point { x: -504, y: 0 });
}

#[test]
fn random_strides_spread_over_directions() {
    let mut quadrants = [0usize; 4];
    for _ in 0..400 {
        let p = random_draws().worm_step;
        let q = (p.x >= 0) as usize * 2 + (p.y >= 0) as usize;
        quadrants[q] += 1;
    }
    for q in quadrants {
        assert!(q > 40);
    }
}
