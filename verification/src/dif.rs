//! The descriptor intermediate form: a permissive, format-agnostic picture of
//! an animation definition as a human wrote it. Values of these types are
//! transient; a format adapter produces them and the canonicalizer consumes
//! them at once.
use vstd::prelude::*;

verus! {

/// Loop-mode selector as written in a document. `Repeat` is the default when
/// the `mode` field is absent; canonicalization turns it into resuming from
/// the first frame.
#[derive(PartialEq, Eq, Structural, Clone, Copy, Debug)]
pub enum RawMode {
    Repeat,
    RepeatFrom(usize),
    Once,
    PingPong,
}

impl Default for RawMode {
    /// A document that names no loop mode repeats from the start.
    fn default() -> (r: Self)
        ensures
            r == RawMode::Repeat,
    {
        RawMode::Repeat
    }
}

/// One frame entry: a sprite-sheet index, and an optional per-frame duration
/// in milliseconds that overrides the document's shared duration.
#[derive(PartialEq, Eq, Structural, Clone, Copy, Debug)]
pub struct RawFrame {
    pub index: usize,
    pub duration: Option<u64>,
}

/// Mathematical model of an [`AnimationDif`].
pub struct DifModel {
    pub mode: RawMode,
    pub frame_duration: Option<u64>,
    pub frames: Seq<RawFrame>,
}

/// A whole raw animation definition: loop mode, optional shared frame
/// duration in milliseconds, and the frame entries in document order.
#[derive(Debug)]
pub struct AnimationDif {
    pub mode: RawMode,
    pub frame_duration: Option<u64>,
    pub frames: Vec<RawFrame>,
}

impl View for AnimationDif {
    type V = DifModel;

    open spec fn view(&self) -> DifModel {
        DifModel { mode: self.mode, frame_duration: self.frame_duration, frames: self.frames@ }
    }
}

} // verus!
