//! The error taxonomy: which inputs give which failure, in both notations.
use benimator::ErrorKind;
use benimator::SpriteSheetAnimation;

#[test]
fn unknown_key_in_frame_entry_is_an_error() {
    let content = "
            frames:
              - index: 0
                duration: 100
                weight: 5";
    let err = SpriteSheetAnimation::from_yaml_str(content).unwrap_err();
    assert!(matches!(err.kind(), ErrorKind::UnknownFrameField));
    assert_eq!(err.detail().as_deref(), Some(b"weight".as_slice()));
    assert!(err.is_decoding_error());
}

#[test]
fn unknown_key_in_ron_frame_entry_is_an_error() {
    let content = "(frames: [(index: 0, duration: 100, weight: 5)])";
    let err = SpriteSheetAnimation::from_ron_str(content).unwrap_err();
    assert!(matches!(err.kind(), ErrorKind::UnknownFrameField));
    assert_eq!(err.detail().as_deref(), Some(b"weight".as_slice()));
}

#[test]
fn oversized_bare_index_is_an_error_carrying_the_literal() {
    // 39 digits: fits no machine index type
    let content = "
            frame_duration: 100
            frames: [111111111111111111111111111111111111111]";
    let err = SpriteSheetAnimation::from_yaml_str(content).unwrap_err();
    assert!(matches!(err.kind(), ErrorKind::IntOutOfRange));
    assert_eq!(
        err.detail().as_deref(),
        Some(b"111111111111111111111111111111111111111".as_slice())
    );
}

#[test]
fn oversized_ron_duration_is_an_error() {
    let content = "(frames: [(index: 0, duration: 99999999999999999999999999999)])";
    let err = SpriteSheetAnimation::from_ron_str(content).unwrap_err();
    assert!(matches!(err.kind(), ErrorKind::IntOutOfRange));
}

#[test]
fn missing_frames_field_is_an_error() {
    let err = SpriteSheetAnimation::from_yaml_str("mode: Once").unwrap_err();
    assert!(matches!(err.kind(), ErrorKind::MissingFrames));
    let err = SpriteSheetAnimation::from_ron_str("(mode: Once)").unwrap_err();
    assert!(matches!(err.kind(), ErrorKind::MissingFrames));
}

#[test]
fn frame_entry_without_index_is_an_error() {
    let content = "
            frames:
              - duration: 100";
    let err = SpriteSheetAnimation::from_yaml_str(content).unwrap_err();
    assert!(matches!(err.kind(), ErrorKind::MissingIndex));
}

#[test]
fn unknown_mode_is_an_error() {
    let content = "
            mode: Backwards
            frames: [0]";
    let err = SpriteSheetAnimation::from_yaml_str(content).unwrap_err();
    assert!(matches!(err.kind(), ErrorKind::BadMode));
    assert_eq!(err.detail().as_deref(), Some(b"Backwards".as_slice()));
}

#[test]
fn duplicate_field_is_an_error() {
    let content = "
            frames:
              - index: 0
                duration: 100
                duration: 100";
    let err = SpriteSheetAnimation::from_yaml_str(content).unwrap_err();
    assert!(matches!(err.kind(), ErrorKind::DuplicateField));
}

#[test]
fn word_frame_entry_is_an_error() {
    let err = SpriteSheetAnimation::from_ron_str("(frames: [what])").unwrap_err();
    assert!(matches!(err.kind(), ErrorKind::BadFrameEntry));
}

#[test]
fn malformed_document_is_an_error() {
    let err = SpriteSheetAnimation::from_ron_str("frames: [0]").unwrap_err();
    assert!(matches!(err.kind(), ErrorKind::Syntax));
    let err = SpriteSheetAnimation::from_yaml_str("frames [0]").unwrap_err();
    assert!(matches!(err.kind(), ErrorKind::Syntax));
}

#[test]
fn unresolved_duration_is_a_validation_error() {
    // no per-frame duration and no shared default
    let content = "
            frames:
              - index: 0";
    let err = SpriteSheetAnimation::from_yaml_str(content).unwrap_err();
    assert!(matches!(err.kind(), ErrorKind::ZeroDuration));
    assert!(!err.is_decoding_error());
    assert_eq!(err.message(), "invalid duration, must be > 0");
}

#[test]
fn zero_override_beats_shared_default_and_fails() {
    // the explicit zero overrides the valid shared duration
    let content = "
            frame_duration: 100
            frames:
              - index: 0
              - index: 1
                duration: 0";
    let err = SpriteSheetAnimation::from_yaml_str(content).unwrap_err();
    assert!(matches!(err.kind(), ErrorKind::ZeroDuration));
}

#[test]
fn zero_shared_duration_fails() {
    let err = SpriteSheetAnimation::from_ron_str("(frame_duration: 0, frames: [0, 1])")
        .unwrap_err();
    assert!(matches!(err.kind(), ErrorKind::ZeroDuration));
}
