use brainworms::color::Color;
use brainworms::kinesis::{jitter_from_draws, rainbow_colours, shake_offsets, Gay, KineticEffect, KineticLabel, Sense, ShakeLetters, SineWavify};

#[test]
fn effect_defaults() {
    let s = SineWavify::default();
    assert_eq!(f32::from_bits(s.amp_bits), 10.0);
    assert_eq!(f32::from_bits(s.x_0_bits), 0.0);
    assert_eq!(f32::from_bits(s.x_1_bits), 2.0 * std::f32::consts::PI);
    assert!(s.live);
    assert_eq!(f32::from_bits(s.live_dampen_bits), 1000.0);
    assert_eq!(ShakeLetters::default(), ShakeLetters { max_distortion: 10, dampen: 8 });
    let g = Gay::default();
    assert_eq!(g.rainbow.len(), 7);
    assert_eq!(g.rainbow[1], Color { r: 255, g: 127, b: 0, a: 255 });
    assert!(g.live);
    assert_eq!(g.live_dampen, 20);
    assert!(matches!(KineticEffect::default(), KineticEffect::SineWavify { .. }));
}

#[test]
fn random_effects_come_with_defaults() {
    let mut rng = nanorand::WyRand::new_seed(7);
    for _ in 0..50 {
        match KineticEffect::random(&mut rng) {
            KineticEffect::SineWavify { params } => assert_eq!(params, SineWavify::default()),
            KineticEffect::ShakeLetters { params } => assert_eq!(params, ShakeLetters::default()),
            KineticEffect::Gay { params } => assert_eq!(params.rainbow.len(), 7),
        }
    }
}

#[test]
fn label_builders() {
    let l = KineticLabel::new("hi".to_string()).wrap(true);
    assert_eq!(l.text(), "hi");
    assert_eq!(l.wrap, Some(true));
    let l = l.truncate(true);
    assert_eq!(l.wrap, None);
    assert!(l.truncate);
    let l = l.sense(Sense { click: true, drag: false, focusable: true });
    assert_eq!(l.sense, Some(Sense { click: true, drag: false, focusable: true }));
    let l = l.kinesis(vec![KineticEffect::default()]);
    assert_eq!(l.kinesis.map(|k| k.len()), Some(1));
}

#[test]
fn glyphs_shake_together_in_shaking_frames() {
    let params = ShakeLetters::default();
    let still = shake_offsets(params, 8, 5);
    assert_eq!(still, vec![(0, 0); 8]);
    for _ in 0..20 {
        let moved = shake_offsets(params, 12, 3);
        assert_eq!(moved.len(), 12);
        for glyph in moved.chunks(4) {
            assert!(glyph.iter().all(|o| *o == glyph[0]));
            let (v, h) = glyph[0];
            let in_range = |a: i32| (-1..=8).contains(&a);
            assert!((in_range(-v) && in_range(h)) || (in_range(v) && in_range(-h)));
        }
    }
    assert!(shake_offsets(ShakeLetters { max_distortion: 0, dampen: 0 }, 0, 9).is_empty());
}

#[test]
fn the_rainbow_turns_with_each_glyph() {
    let mut g = Gay::default();
    g.live = false;
    let colours = rainbow_colours(&g, 12, 0);
    assert_eq!(colours.len(), 12);
    assert_eq!(colours[0], g.rainbow[0]);
    assert_eq!(colours[3], g.rainbow[0]);
    assert_eq!(colours[4], g.rainbow[1]);
    assert_eq!(colours[8], g.rainbow[2]);
    g.live = true;
    // frame 45 with dampening 20: (45 / 20) % 8 + 1 = 3 steps before each glyph
    let colours = rainbow_colours(&g, 12, 45);
    assert_eq!(colours[0], g.rainbow[3]);
    assert_eq!(colours[4], g.rainbow[0]);
    assert_eq!(colours[8], g.rainbow[4]);
    assert!(rainbow_colours(&Gay { rainbow: vec![], live: true, live_dampen: 0 }, 0, 1).is_empty());
}

#[test]
fn each_glyph_takes_its_own_draws() {
    let draws = vec![(3, 4, 60), (5, 6, 10)];
    let offsets = jitter_from_draws(&draws, 7, true);
    assert_eq!(offsets, vec![(-3, 4), (-3, 4), (-3, 4), (-3, 4), (5, -6), (5, -6), (5, -6)]);
    let coin_on_the_edge = jitter_from_draws(&vec![(1, 2, 50)], 1, true);
    assert_eq!(coin_on_the_edge, vec![(1, -2)]);
    assert_eq!(jitter_from_draws(&draws, 3, false), vec![(0, 0); 3]);
}
