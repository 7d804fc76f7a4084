//! General properties of the parsing and canonicalization pipeline, stated
//! over the specification functions that the public contracts use and proved
//! once for all inputs.
use vstd::prelude::*;

use crate::animation::spec_animation_of;
use crate::animation::spec_canon_frame;
use crate::animation::spec_canon_mode;
use crate::animation::spec_canonical;
use crate::animation::spec_frame_resolves;
use crate::animation::spec_from_block;
use crate::animation::spec_from_field;
use crate::animation::Mode;
use crate::block::spec_block_dif;
use crate::decode::spec_doc_finish;
use crate::decode::DocAccModel;
use crate::dif::DifModel;
use crate::dif::RawMode;
use crate::error::ErrorKind;
use crate::error::ErrorModel;
use crate::error::InvalidAnimation;
use crate::field::spec_field_dif;

verus! {

/// A document whose decoding yields a non-empty frame list in which every
/// entry resolves to a positive duration parses successfully, and the
/// animation holds the frames in document order, each with its resolved
/// duration, under the normalized mode. The premise `dr == Ok(d)` is what
/// either notation adapter yields, so this holds of both entry points.
pub proof fn lemma_resolving_frames_parse(dr: Result<DifModel, ErrorModel>, d: DifModel)
    requires
        dr == Ok::<DifModel, ErrorModel>(d),
        d.frames.len() > 0,
        forall|i: int|
            0 <= i < d.frames.len() ==> spec_frame_resolves(#[trigger] d.frames[i], d.frame_duration),
    ensures
        spec_animation_of(dr) matches Ok(a) && {
            &&& a.frames.len() == d.frames.len()
            &&& forall|i: int|
                0 <= i < d.frames.len() ==> a.frames[i] == spec_canon_frame(
                    #[trigger] d.frames[i],
                    d.frame_duration,
                )
            &&& a.mode == spec_canon_mode(d.mode)
        },
{
}

/// A document with no `mode` field, and one whose `mode` is the plain
/// repeat selector, both canonicalize to resuming from the first frame.
pub proof fn lemma_default_mode(acc: DocAccModel)
    requires
        acc.mode is None || acc.mode == Some(RawMode::Repeat),
        acc.frames is Some,
    ensures
        spec_doc_finish(acc) matches Ok(d) && spec_canon_mode(d.mode) == Mode::RepeatFrom(0),
{
}

/// Mode normalization is literal: `Once` and `PingPong` map to themselves,
/// and a resume position is kept exactly as written, with no bound against
/// the frame count at parse time.
pub proof fn lemma_mode_normalization(k: usize)
    ensures
        spec_canon_mode(RawMode::Once) == Mode::Once,
        spec_canon_mode(RawMode::PingPong) == Mode::PingPong,
        spec_canon_mode(RawMode::RepeatFrom(k)) == Mode::RepeatFrom(k),
        spec_canon_mode(RawMode::Repeat) == Mode::RepeatFrom(0),
{
}

/// One entry whose effective duration, after override-then-shared-default
/// resolution, is absent or zero makes the whole conversion fail with the
/// validation error, whatever the other entries hold.
pub proof fn lemma_zero_duration_fails(d: DifModel, i: int)
    requires
        0 <= i < d.frames.len(),
        !spec_frame_resolves(d.frames[i], d.frame_duration),
    ensures
        spec_canonical(d) == Err::<crate::animation::AnimationModel, _>(
            InvalidAnimation::ZeroDuration,
        ),
        spec_animation_of(Ok(d)) matches Err(e) && e.kind == ErrorKind::ZeroDuration,
{
}

/// Every frame of a successfully canonicalized animation has a positive
/// duration: the validated value keeps its invariant for every reader.
pub proof fn lemma_canonical_frames_positive(d: DifModel)
    ensures
        spec_canonical(d) matches Ok(a) ==> forall|i: int|
            0 <= i < a.frames.len() ==> (#[trigger] a.frames[i]).duration_ms > 0,
{
}

/// Two documents, one per notation, that decode to the same intermediate
/// form parse to equal animations: the notations differ only in syntax, and
/// everything after decoding is shared.
pub proof fn lemma_notations_agree(y: Seq<u8>, r: Seq<u8>, d: DifModel)
    requires
        spec_block_dif(y) == Ok::<DifModel, ErrorModel>(d),
        spec_field_dif(r) == Ok::<DifModel, ErrorModel>(d),
    ensures
        spec_from_block(y) == spec_from_field(r),
{
}

} // verus!

