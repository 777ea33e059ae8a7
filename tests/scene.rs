use piet_motion::data::{BrushId, Command, PathId, ScenePathData, TransformId};

#[test]
fn paths_get_consecutive_ids() {
    let mut d: ScenePathData<u8, (f32, f32)> = ScenePathData::new();
    let a = d.add(&[0, 2, 4], &[(0.0, 0.0), (1.0, 1.0)]);
    let b = d.add(&[], &[]);
    let c = d.add(&[1], &[(2.0, 2.0)]);
    assert_eq!(a, PathId(0));
    assert_eq!(b, PathId(1));
    assert_eq!(c, PathId(2));
    d.clear();
    assert_eq!(d.add(&[1], &[]), PathId(0));
}

#[test]
fn commands_carry_ids() {
    let c: Command<()> = Command::Fill(PathId(3), BrushId(1));
    match c {
        Command::Fill(p, b) => {
            assert_eq!(p, PathId(3));
            assert_eq!(b, BrushId(1));
        }
        _ => unreachable!(),
    }
    let t: Command<()> = Command::PushAnimatedTransform(TransformId(2));
    assert!(matches!(t, Command::PushAnimatedTransform(TransformId(2))));
}
