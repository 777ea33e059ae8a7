use piet_motion::time::{Bracket, KeyframeTime};
use piet_motion::transform::{AnimatedTransform, TransformSample};
use piet_motion::value::{KeyframeValues, MaybeAnimated, Sample};

fn at(t: f32) -> KeyframeTime {
    KeyframeTime { bits: t.to_bits() }
}

fn track(times: &[f32], values: &[f32]) -> KeyframeValues<f32> {
    KeyframeValues {
        times: times.iter().map(|t| at(*t)).collect(),
        values: values.to_vec(),
    }
}

/// Blends a sample the way a renderer does with the fraction it carries.
fn blend(s: Sample<f32>, time: f32) -> f32 {
    match s {
        Sample::Exact(v) => v,
        Sample::Between { from, to, start, end } => {
            let t0 = f32::from_bits(start.bits);
            let t1 = f32::from_bits(end.bits);
            let f = (time - t0) / (t1 - t0);
            from + (to - from) * f
        }
    }
}

#[test]
fn order_key_follows_float_order() {
    let xs = [-1.0e30f32, -2.5, -1.0, -0.0, 0.0, 1.0e-30, 0.5, 2.0, 1.0e30];
    for i in 0..xs.len() {
        for j in 0..xs.len() {
            let a = at(xs[i]).order();
            let b = at(xs[j]).order();
            assert_eq!(a < b, xs[i] < xs[j]);
            assert_eq!(a == b, xs[i] == xs[j]);
        }
    }
}

#[test]
fn single_sample_is_constant() {
    let k = track(&[3.0], &[7.5]);
    for t in [-1.0e9f32, -5.0, 0.0, 3.0, 4.0, 1.0e9] {
        assert_eq!(k.evaluate(at(t)), Some(Sample::Exact(7.5)));
    }
}

#[test]
fn empty_track_has_no_value() {
    let k = track(&[], &[]);
    for t in [-5.0f32, 0.0, 5.0] {
        assert_eq!(k.evaluate(at(t)), None);
    }
    let m = MaybeAnimated::Animated(k);
    assert_eq!(m.evaluate(at(1.0)), None);
}

#[test]
fn two_sample_track_interpolates_and_clamps() {
    let k = track(&[0.0, 10.0], &[0.0, 100.0]);
    assert_eq!(blend(k.evaluate(at(5.0)).unwrap(), 5.0), 50.0);
    assert_eq!(k.evaluate(at(-5.0)), Some(Sample::Exact(0.0)));
    assert_eq!(k.evaluate(at(0.0)), Some(Sample::Exact(0.0)));
    assert_eq!(k.evaluate(at(20.0)), Some(Sample::Exact(100.0)));
    assert_eq!(
        k.evaluate(at(5.0)),
        Some(Sample::Between { from: 0.0, to: 100.0, start: at(0.0), end: at(10.0) })
    );
}

#[test]
fn brackets_clamp_outside_the_track() {
    let times = [at(1.0), at(2.0), at(4.0)];
    assert_eq!(KeyframeTime::find_frames(&times, at(-3.0)), Some(Bracket { lo: 0, hi: 0 }));
    assert_eq!(KeyframeTime::find_frames(&times, at(9.0)), Some(Bracket { lo: 2, hi: 2 }));
    assert_eq!(KeyframeTime::find_frames(&times, at(3.0)), Some(Bracket { lo: 1, hi: 2 }));
    assert_eq!(KeyframeTime::find_frames(&times, at(2.0)), Some(Bracket { lo: 1, hi: 1 }));
    assert_eq!(KeyframeTime::find_frames(&[], at(2.0)), None);
}

#[test]
fn equal_times_resolve_to_the_first() {
    let times = [at(0.0), at(5.0), at(5.0), at(10.0)];
    assert_eq!(KeyframeTime::find_frames(&times, at(5.0)), Some(Bracket { lo: 1, hi: 1 }));
    assert_eq!(KeyframeTime::find_frames(&times, at(7.0)), Some(Bracket { lo: 2, hi: 3 }));
}

#[test]
fn missing_value_gives_none() {
    let k = track(&[0.0, 10.0], &[1.0]);
    assert_eq!(k.evaluate(at(5.0)), None);
    assert_eq!(k.evaluate(at(-1.0)), Some(Sample::Exact(1.0)));
}

#[test]
fn fixed_channel_matches_single_sample() {
    let fixed = MaybeAnimated::Fixed(4.0f32);
    let animated = MaybeAnimated::Animated(track(&[2.0], &[4.0]));
    assert!(fixed.is_fixed());
    assert!(!animated.is_fixed());
    for t in [-1.0f32, 2.0, 8.0] {
        assert_eq!(fixed.evaluate(at(t)), animated.evaluate(at(t)));
    }
}

fn transform(skew: MaybeAnimated<f32>) -> AnimatedTransform<(f32, f32), f32> {
    AnimatedTransform {
        anchor: MaybeAnimated::Fixed((1.0, 2.0)),
        position: MaybeAnimated::Animated(KeyframeValues {
            times: vec![at(0.0), at(10.0)],
            values: vec![(0.0, 0.0), (10.0, 20.0)],
        }),
        rotation: MaybeAnimated::Fixed(45.0),
        scale: MaybeAnimated::Fixed((100.0, 100.0)),
        skew,
        skew_angle: MaybeAnimated::Fixed(0.0),
    }
}

#[test]
fn transform_samples_every_channel() {
    let x = transform(MaybeAnimated::Fixed(0.0));
    assert!(!x.is_fixed());
    let s = x.evaluate(at(2.5)).unwrap();
    assert_eq!(
        s,
        TransformSample {
            anchor: Sample::Exact((1.0, 2.0)),
            position: Sample::Between { from: (0.0, 0.0), to: (10.0, 20.0), start: at(0.0), end: at(10.0) },
            rotation: Sample::Exact(45.0),
            scale: Sample::Exact((100.0, 100.0)),
            skew: Sample::Exact(0.0),
            skew_angle: Sample::Exact(0.0),
        }
    );
}

#[test]
fn transform_with_empty_channel_has_no_value() {
    let x = transform(MaybeAnimated::Animated(track(&[], &[])));
    for t in [-1.0f32, 0.0, 5.0, 20.0] {
        assert_eq!(x.evaluate(at(t)), None);
    }
}

#[test]
fn fixed_transform_is_fixed() {
    let mut x = transform(MaybeAnimated::Fixed(0.0));
    x.position = MaybeAnimated::Fixed((3.0, 4.0));
    assert!(x.is_fixed());
    assert_eq!(x.evaluate(at(100.0)).unwrap().position, Sample::Exact((3.0, 4.0)));
}

#[test]
fn sortedness_is_checked() {
    assert!(KeyframeTime::is_sorted(&[at(-1.0), at(0.0), at(0.0), at(3.0)]));
    assert!(KeyframeTime::is_sorted(&[]));
    assert!(!KeyframeTime::is_sorted(&[at(1.0), at(0.5)]));
    assert!(track(&[0.0, 1.0], &[0.0, 1.0]).is_well_formed());
    assert!(!MaybeAnimated::Animated(track(&[2.0, 1.0], &[0.0, 1.0])).is_well_formed());
    assert!(MaybeAnimated::Fixed(1.0f32).is_well_formed());
    let mut x = transform(MaybeAnimated::Fixed(0.0));
    assert!(x.is_well_formed());
    x.rotation = MaybeAnimated::Animated(track(&[5.0, -5.0], &[0.0, 1.0]));
    assert!(!x.is_well_formed());
}

#[test]
fn negative_zero_equals_zero() {
    let k = track(&[0.0, 10.0], &[2.0, 4.0]);
    assert_eq!(k.evaluate(at(-0.0)), Some(Sample::Exact(2.0)));
    assert_eq!(at(-0.0).order(), at(0.0).order());
}
