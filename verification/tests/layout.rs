//! Block documents in the compact layout — sequence items at the
//! introducing key's own column — and the remaining notation forms: flow
//! mappings, explicit null words, prefixed integer literals, and a named
//! document record.
use benimator::ErrorKind;
use benimator::Frame;
use benimator::Mode;
use benimator::SpriteSheetAnimation;

#[test]
fn compact_layout_default_mode() {
    let a = SpriteSheetAnimation::from_yaml_str("frames:\n- index: 0\n  duration: 100").unwrap();
    assert_eq!(a.mode, Mode::RepeatFrom(0));
    assert_eq!(a.frames, vec![Frame::new(0, 100)]);
}

#[test]
fn compact_layout_repeat() {
    let a = SpriteSheetAnimation::from_yaml_str("mode: Repeat\nframes:\n- index: 0\n  duration: 100")
        .unwrap();
    assert_eq!(a.mode, Mode::RepeatFrom(0));
}

#[test]
fn compact_layout_once() {
    let a = SpriteSheetAnimation::from_yaml_str("mode: Once\nframes:\n- index: 0\n  duration: 100")
        .unwrap();
    assert_eq!(a.mode, Mode::Once);
}

#[test]
fn compact_layout_repeat_from() {
    let content = "mode:\n  RepeatFrom: 1\nframes:\n- index: 0\n  duration: 100\n- index: 1\n  duration: 100";
    let a = SpriteSheetAnimation::from_yaml_str(content).unwrap();
    assert_eq!(a.mode, Mode::RepeatFrom(1));
    assert_eq!(a.frames.len(), 2);
}

#[test]
fn compact_layout_override_precedence() {
    let content = "frame_duration: 100\nframes:\n- index: 0\n- index: 1\n- index: 2\n  duration: 200";
    let a = SpriteSheetAnimation::from_yaml_str(content).unwrap();
    assert_eq!(
        a.frames,
        vec![Frame::new(0, 100), Frame::new(1, 100), Frame::new(2, 200)]
    );
}

#[test]
fn compact_layout_ping_pong() {
    let content = "mode: PingPong\nframes:\n- index: 0\n  duration: 100\n- index: 1\n  duration: 100\n- index: 2\n  duration: 120";
    let a = SpriteSheetAnimation::from_yaml_str(content).unwrap();
    assert_eq!(a.mode, Mode::PingPong);
    assert_eq!(
        a.frames,
        vec![Frame::new(0, 100), Frame::new(1, 100), Frame::new(2, 120)]
    );
}

#[test]
fn flow_mapping_frame_entries() {
    let content = "frame_duration: 100\nframes: [{index: 0, duration: 200}, 1, {index: 2}]";
    let a = SpriteSheetAnimation::from_yaml_str(content).unwrap();
    assert_eq!(
        a.frames,
        vec![Frame::new(0, 200), Frame::new(1, 100), Frame::new(2, 100)]
    );
}

#[test]
fn flow_mapping_mode() {
    let content = "mode: {RepeatFrom: 2}\nframes: [0]\nframe_duration: 5";
    let a = SpriteSheetAnimation::from_yaml_str(content).unwrap();
    assert_eq!(a.mode, Mode::RepeatFrom(2));
}

#[test]
fn null_words_fall_back_to_shared_duration() {
    let content = "frame_duration: 100\nframes:\n- index: 0\n  duration: null\n- index: 1\n  duration: ~";
    let a = SpriteSheetAnimation::from_yaml_str(content).unwrap();
    assert_eq!(a.frames, vec![Frame::new(0, 100), Frame::new(1, 100)]);
}

#[test]
fn null_shared_duration_counts_as_absent() {
    let a = SpriteSheetAnimation::from_yaml_str("frame_duration: null\nframes:\n- index: 0\n  duration: 60")
        .unwrap();
    assert_eq!(a.frames, vec![Frame::new(0, 60)]);

    let err = SpriteSheetAnimation::from_yaml_str("frame_duration: ~\nframes: [0]").unwrap_err();
    assert!(matches!(err.kind(), ErrorKind::ZeroDuration));
}

#[test]
fn named_document_record() {
    let a = SpriteSheetAnimation::from_ron_str("Animation(frames: [(index: 0, duration: 100)])")
        .unwrap();
    assert_eq!(a.frames, vec![Frame::new(0, 100)]);
}

#[test]
fn prefixed_integer_literals() {
    let a = SpriteSheetAnimation::from_yaml_str("frame_duration: 0x64\nframes: [0o7, 0b10]")
        .unwrap();
    assert_eq!(a.frames, vec![Frame::new(7, 100), Frame::new(2, 100)]);

    let b = SpriteSheetAnimation::from_ron_str("(frame_duration: 0x64, frames: [3])").unwrap();
    assert_eq!(b.frames, vec![Frame::new(3, 100)]);
}

#[test]
fn oversized_hex_literal_is_an_error_carrying_the_literal() {
    let err = SpriteSheetAnimation::from_yaml_str("frames: [0x11111111111111111]").unwrap_err();
    assert!(matches!(err.kind(), ErrorKind::IntOutOfRange));
    assert_eq!(err.detail().as_deref(), Some(b"0x11111111111111111".as_slice()));
}

#[test]
fn comment_glued_to_a_value_is_an_error() {
    let content = "frames:\n- index: 0\n  duration: 100# not a comment";
    let err = SpriteSheetAnimation::from_yaml_str(content).unwrap_err();
    assert!(matches!(err.kind(), ErrorKind::Syntax));
}
