//! Both notations express one logical schema: documents that encode the
//! same animation yield equal canonical values, and the byte entry points
//! behave as the text ones.
use benimator::Frame;
use benimator::Mode;
use benimator::SpriteSheetAnimation;

#[test]
fn both_notations_yield_equal_animations() {
    let yaml = "
            mode:
              RepeatFrom: 1
            frame_duration: 100
            frames:
              - index: 0
              - index: 1
                duration: 120";
    let ron = "(mode: RepeatFrom(1), frame_duration: 100, frames: [0, (index: 1, duration: 120)])";

    let a = SpriteSheetAnimation::from_yaml_str(yaml).unwrap();
    let b = SpriteSheetAnimation::from_ron_str(ron).unwrap();

    assert_eq!(a.mode, b.mode);
    assert_eq!(a.frames, b.frames);
    assert_eq!(a.frames, vec![Frame::new(0, 100), Frame::new(1, 120)]);
}

#[test]
fn bytes_and_text_entry_points_agree() {
    let content = "
            frame_duration: 100
            frames: [0, 1]";
    let a = SpriteSheetAnimation::from_yaml_str(content).unwrap();
    let b = SpriteSheetAnimation::from_yaml_bytes(content.as_bytes()).unwrap();
    assert_eq!(a.mode, b.mode);
    assert_eq!(a.frames, b.frames);

    let ron = "(frame_duration: 100, frames: [0, 1])";
    let c = SpriteSheetAnimation::from_ron_str(ron).unwrap();
    let d = SpriteSheetAnimation::from_ron_bytes(ron.as_bytes()).unwrap();
    assert_eq!(c.mode, d.mode);
    assert_eq!(c.frames, d.frames);
    assert_eq!(a.frames, c.frames);
}

#[test]
fn explicit_and_implicit_some_agree() {
    let explicit = "(frames: [(index: 0, duration: Some(100))])";
    let implicit = "(frames: [(index: 0, duration: 100)])";
    let a = SpriteSheetAnimation::from_ron_str(explicit).unwrap();
    let b = SpriteSheetAnimation::from_ron_str(implicit).unwrap();
    assert_eq!(a.frames, b.frames);
    assert_eq!(a.frames, vec![Frame::new(0, 100)]);
}

#[test]
fn null_duration_falls_back_to_shared_default() {
    let ron = "(frame_duration: 100, frames: [(index: 3, duration: None)])";
    let a = SpriteSheetAnimation::from_ron_str(ron).unwrap();
    assert_eq!(a.frames, vec![Frame::new(3, 100)]);

    let yaml = "
            frame_duration: 100
            frames:
              - index: 3
                duration:";
    let b = SpriteSheetAnimation::from_yaml_str(yaml).unwrap();
    assert_eq!(a.frames, b.frames);
}

#[test]
fn ping_pong_mode_in_field_notation() {
    let a = SpriteSheetAnimation::from_ron_str("(mode: PingPong, frames: [(index: 0, duration: 5)])")
        .unwrap();
    assert_eq!(a.mode, Mode::PingPong);
}

#[test]
fn resume_index_may_exceed_the_frame_count() {
    let a = SpriteSheetAnimation::from_ron_str("(mode: RepeatFrom(9), frames: [(index: 0, duration: 5)])")
        .unwrap();
    assert_eq!(a.mode, Mode::RepeatFrom(9));
    assert_eq!(a.frames.len(), 1);
}

#[test]
fn unknown_top_level_keys_are_ignored() {
    let yaml = "
            speed: 3
            frames: [4]
            frame_duration: 7";
    let a = SpriteSheetAnimation::from_yaml_str(yaml).unwrap();
    assert_eq!(a.frames, vec![Frame::new(4, 7)]);

    let ron = "(speed: [1, (x: 2)], frame_duration: 7, frames: [4])";
    let b = SpriteSheetAnimation::from_ron_str(ron).unwrap();
    assert_eq!(a.frames, b.frames);
}

#[test]
fn empty_frame_list_is_not_rejected() {
    let a = SpriteSheetAnimation::from_yaml_str("frames: []").unwrap();
    assert_eq!(a.frames, vec![]);
    assert_eq!(a.mode, Mode::RepeatFrom(0));
}
