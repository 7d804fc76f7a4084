//! Sprite-sheet animation descriptors: parsing and validation.
//!
//! An animation descriptor is a sequence of frame references (indices into a
//! sprite sheet) paired with per-frame display durations and a looping policy.
//! Two textual notations are accepted, a block/indentation notation and a
//! parenthesized field notation; both are decoded into one intermediate form
//! and canonicalized by the same validation step.

pub mod animation;
pub mod block;
pub mod decode;
pub mod dif;
pub mod error;
pub mod field;
pub mod laws;
pub mod scan;

pub use animation::Frame;
pub use animation::Mode;
pub use animation::SpriteSheetAnimation;
pub use error::AnimationParseError;
pub use error::ErrorKind;
pub use error::InvalidAnimation;
