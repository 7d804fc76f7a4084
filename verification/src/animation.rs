//! The canonical animation value and the canonicalization step that turns a
//! raw intermediate form into it: every frame's duration is resolved
//! (override first, then the shared default) and must be positive, and the
//! loop mode is normalized.
use vstd::prelude::*;

use crate::block;
use crate::dif::AnimationDif;
use crate::dif::DifModel;
use crate::dif::RawFrame;
use crate::dif::RawMode;
use crate::error::AnimationParseError;
use crate::error::ErrorKind;
use crate::error::ErrorModel;
use crate::error::InvalidAnimation;
use crate::field;
use vstd::string::StringSliceAdditionalSpecFns;

verus! {

/// One canonical frame: show sprite-sheet cell `index` for `duration_ms`
/// milliseconds. A canonical frame always has a positive duration.
#[derive(PartialEq, Eq, Structural, Clone, Copy, Debug)]
pub struct Frame {
    pub index: usize,
    pub duration_ms: u64,
}

impl Frame {
    /// A frame is well formed when its duration is positive.
    pub open spec fn wf(self) -> bool {
        self.duration_ms > 0
    }

    pub fn new(index: usize, duration_ms: u64) -> (r: Frame)
        requires
            duration_ms > 0,
        ensures
            r == (Frame { index, duration_ms }),
            r.wf(),
    {
        Frame { index, duration_ms }
    }
}

/// Loop behaviour once the sequence reaches its end. A plain repeat request
/// is canonicalized to `RepeatFrom(0)`: there is no separate repeat variant.
/// The resume position of `RepeatFrom` is an index into the animation's frame
/// list, not a sprite-sheet index, and is not bounds-checked at parse time.
#[derive(PartialEq, Eq, Structural, Clone, Copy, Debug)]
pub enum Mode {
    Once,
    RepeatFrom(usize),
    PingPong,
}

/// Mathematical model of a [`SpriteSheetAnimation`].
pub struct AnimationModel {
    pub frames: Seq<Frame>,
    pub mode: Mode,
}

/// A validated animation: its frames in playback order and its loop mode.
/// Constructed once by canonicalization and immutable afterwards.
#[derive(Debug)]
pub struct SpriteSheetAnimation {
    pub frames: Vec<Frame>,
    pub mode: Mode,
}

impl View for SpriteSheetAnimation {
    type V = AnimationModel;

    open spec fn view(&self) -> AnimationModel {
        AnimationModel { frames: self.frames@, mode: self.mode }
    }
}

impl SpriteSheetAnimation {
    /// Every frame of a validated animation has a positive duration.
    pub open spec fn wf(self) -> bool {
        forall|i: int| 0 <= i < self.frames@.len() ==> (#[trigger] self.frames@[i]).wf()
    }
}

/// The duration a frame entry resolves to: its own override when present,
/// otherwise the document's shared duration, otherwise absent.
pub open spec fn spec_effective_duration(f: RawFrame, shared: Option<u64>) -> Option<u64> {
    match f.duration {
        Some(d) => Some(d),
        None => shared,
    }
}

/// Whether a frame entry resolves to a positive duration.
pub open spec fn spec_frame_resolves(f: RawFrame, shared: Option<u64>) -> bool {
    match spec_effective_duration(f, shared) {
        Some(d) => d > 0,
        None => false,
    }
}

/// The canonical frame a resolving entry yields.
pub open spec fn spec_canon_frame(f: RawFrame, shared: Option<u64>) -> Frame
    recommends
        spec_frame_resolves(f, shared),
{
    Frame {
        index: f.index,
        duration_ms: match spec_effective_duration(f, shared) {
            Some(d) => d,
            None => 0,
        },
    }
}

/// Mode normalization: a plain repeat becomes a repeat from the first frame;
/// the other selectors map to themselves.
pub open spec fn spec_canon_mode(m: RawMode) -> Mode {
    match m {
        RawMode::Repeat => Mode::RepeatFrom(0),
        RawMode::RepeatFrom(k) => Mode::RepeatFrom(k),
        RawMode::Once => Mode::Once,
        RawMode::PingPong => Mode::PingPong,
    }
}

/// Canonicalization: all-or-nothing. If every entry resolves to a positive
/// duration the animation holds the resolved frames in document order;
/// otherwise the whole conversion fails with the one validation error.
pub open spec fn spec_canonical(d: DifModel) -> Result<AnimationModel, InvalidAnimation> {
    if forall|i: int|
        0 <= i < d.frames.len() ==> spec_frame_resolves(#[trigger] d.frames[i], d.frame_duration) {
        Ok(
            AnimationModel {
                frames: Seq::new(
                    d.frames.len(),
                    |i: int| spec_canon_frame(d.frames[i], d.frame_duration),
                ),
                mode: spec_canon_mode(d.mode),
            },
        )
    } else {
        Err(InvalidAnimation::ZeroDuration)
    }
}

/// Lift an executable canonicalization result to its model.
pub open spec fn lift_canonical(r: Result<SpriteSheetAnimation, InvalidAnimation>) -> Result<
    AnimationModel,
    InvalidAnimation,
> {
    match r {
        Ok(a) => Ok(a@),
        Err(e) => Err(e),
    }
}

/// Lift an executable animation parse result to its model.
pub open spec fn lift_animation(r: Result<SpriteSheetAnimation, AnimationParseError>) -> Result<
    AnimationModel,
    ErrorModel,
> {
    match r {
        Ok(a) => Ok(a@),
        Err(e) => Err(e@),
    }
}

fn canon_mode(m: RawMode) -> (r: Mode)
    ensures
        r == spec_canon_mode(m),
{
    match m {
        RawMode::Repeat => Mode::RepeatFrom(0),
        RawMode::RepeatFrom(k) => Mode::RepeatFrom(k),
        RawMode::Once => Mode::Once,
        RawMode::PingPong => Mode::PingPong,
    }
}

/// The whole pipeline after a notation adapter: canonicalize its
/// intermediate form, folding the validation error into the error taxonomy.
pub open spec fn spec_animation_of(d: Result<DifModel, ErrorModel>) -> Result<
    AnimationModel,
    ErrorModel,
> {
    match d {
        Ok(dif) => match spec_canonical(dif) {
            Ok(a) => Ok(a),
            Err(InvalidAnimation::ZeroDuration) => Err(
                ErrorModel { kind: ErrorKind::ZeroDuration, detail: None },
            ),
        },
        Err(e) => Err(e),
    }
}

/// What parsing a block-notation document yields.
pub open spec fn spec_from_block(s: Seq<u8>) -> Result<AnimationModel, ErrorModel> {
    spec_animation_of(block::spec_block_dif(s))
}

/// What parsing a field-notation document yields.
pub open spec fn spec_from_field(s: Seq<u8>) -> Result<AnimationModel, ErrorModel> {
    spec_animation_of(field::spec_field_dif(s))
}

impl SpriteSheetAnimation {
    /// Canonicalize one intermediate form, in frame order; the first entry
    /// whose duration resolves to absent or zero aborts the conversion.
    pub fn from_dif(dif: &AnimationDif) -> (r: Result<SpriteSheetAnimation, InvalidAnimation>)
        ensures
            lift_canonical(r) == spec_canonical(dif@),
            r matches Ok(a) ==> a.wf(),
    {
        let mut frames: Vec<Frame> = Vec::new();
        let n = dif.frames.len();
        let mut i: usize = 0;
        while i < n
            invariant
                i <= n,
                n == dif.frames@.len(),
                frames@.len() == i,
                forall|j: int|
                    0 <= j < i ==> spec_frame_resolves(
                        #[trigger] dif.frames@[j],
                        dif.frame_duration,
                    ),
                forall|j: int|
                    0 <= j < i ==> frames@[j] == spec_canon_frame(
                        #[trigger] dif.frames@[j],
                        dif.frame_duration,
                    ),
            decreases n - i,
        {
            let f = dif.frames[i];
            let eff: Option<u64> = match f.duration {
                Some(d) => Some(d),
                None => dif.frame_duration,
            };
            match eff {
                Some(d) => {
                    if d == 0 {
                        return Err(InvalidAnimation::ZeroDuration);
                    }
                    frames.push(Frame { index: f.index, duration_ms: d });
                },
                None => {
                    return Err(InvalidAnimation::ZeroDuration);
                },
            }
            i += 1;
        }
        let r = SpriteSheetAnimation { frames, mode: canon_mode(dif.mode) };
        proof {
            assert(r.frames@ =~= Seq::new(
                dif.frames@.len(),
                |i: int| spec_canon_frame(dif.frames@[i], dif.frame_duration),
            ));
        }
        Ok(r)
    }

    /// Parse a block-notation document given as text.
    ///
    /// The schema: an optional `mode` field (`Once`, `Repeat`, `PingPong`, or
    /// `RepeatFrom: n` on an indented line, defaulting to `Repeat`), an
    /// optional shared `frame_duration` in milliseconds, and a required
    /// `frames` list whose entries are bare sprite-sheet indices or
    /// `index`/`duration` records.
    pub fn from_yaml_str(yaml: &str) -> (r: Result<SpriteSheetAnimation, AnimationParseError>)
        ensures
            lift_animation(r) == spec_from_block(yaml.spec_bytes()),
    {
        Self::from_yaml_bytes(yaml.as_bytes())
    }

    /// Parse a block-notation document given as bytes. Behaves exactly as
    /// [`Self::from_yaml_str`] does on the text the bytes encode.
    pub fn from_yaml_bytes(yaml: &[u8]) -> (r: Result<SpriteSheetAnimation, AnimationParseError>)
        ensures
            lift_animation(r) == spec_from_block(yaml@),
    {
        match block::parse_block_dif(yaml) {
            Ok(dif) => match Self::from_dif(&dif) {
                Ok(a) => Ok(a),
                Err(InvalidAnimation::ZeroDuration) => Err(
                    AnimationParseError::new(ErrorKind::ZeroDuration),
                ),
            },
            Err(e) => Err(e),
        }
    }

    /// Parse a field-notation document given as text.
    ///
    /// The schema is the same as for [`Self::from_yaml_str`], written as a
    /// parenthesized record: `mode` is a bare selector word or
    /// `RepeatFrom(n)`, and optional values may be written bare or wrapped in
    /// an explicit `Some(...)`.
    pub fn from_ron_str(ron: &str) -> (r: Result<SpriteSheetAnimation, AnimationParseError>)
        ensures
            lift_animation(r) == spec_from_field(ron.spec_bytes()),
    {
        Self::from_ron_bytes(ron.as_bytes())
    }

    /// Parse a field-notation document given as bytes. Behaves exactly as
    /// [`Self::from_ron_str`] does on the text the bytes encode.
    pub fn from_ron_bytes(ron: &[u8]) -> (r: Result<SpriteSheetAnimation, AnimationParseError>)
        ensures
            lift_animation(r) == spec_from_field(ron@),
    {
        match field::parse_field_dif(ron) {
            Ok(dif) => match Self::from_dif(&dif) {
                Ok(a) => Ok(a),
                Err(InvalidAnimation::ZeroDuration) => Err(
                    AnimationParseError::new(ErrorKind::ZeroDuration),
                ),
            },
            Err(e) => Err(e),
        }
    }
}

} // verus!
