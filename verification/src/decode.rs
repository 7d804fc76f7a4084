//! Schema-level decoding shared by both notations: keyword classification,
//! the polymorphic frame entry (bare index or strict `index`/`duration`
//! record), the loop-mode selector, and assembly of the whole document with
//! its default fields.
use vstd::prelude::*;

use crate::dif::AnimationDif;
use crate::dif::DifModel;
use crate::dif::RawFrame;
use crate::dif::RawMode;
use crate::error::AnimationParseError;
use crate::error::ErrorKind;
use crate::error::ErrorModel;
use crate::error::lift;

verus! {

/// The words with a fixed meaning in either notation.
#[derive(PartialEq, Eq, Structural, Clone, Copy, Debug)]
pub enum Keyword {
    Mode,
    FrameDuration,
    Frames,
    Index,
    Duration,
    Repeat,
    RepeatFrom,
    Once,
    PingPong,
    SomeWord,
    NoneWord,
    NullWord,
    Other,
}

pub open spec fn kw_mode() -> Seq<u8> {
    seq![109u8, 111u8, 100u8, 101u8]
}

pub open spec fn kw_frame_duration() -> Seq<u8> {
    seq![102u8, 114u8, 97u8, 109u8, 101u8, 95u8, 100u8, 117u8, 114u8, 97u8, 116u8, 105u8, 111u8, 110u8]
}

pub open spec fn kw_frames() -> Seq<u8> {
    seq![102u8, 114u8, 97u8, 109u8, 101u8, 115u8]
}

pub open spec fn kw_index() -> Seq<u8> {
    seq![105u8, 110u8, 100u8, 101u8, 120u8]
}

pub open spec fn kw_duration() -> Seq<u8> {
    seq![100u8, 117u8, 114u8, 97u8, 116u8, 105u8, 111u8, 110u8]
}

pub open spec fn kw_repeat() -> Seq<u8> {
    seq![82u8, 101u8, 112u8, 101u8, 97u8, 116u8]
}

pub open spec fn kw_repeat_from() -> Seq<u8> {
    seq![82u8, 101u8, 112u8, 101u8, 97u8, 116u8, 70u8, 114u8, 111u8, 109u8]
}

pub open spec fn kw_once() -> Seq<u8> {
    seq![79u8, 110u8, 99u8, 101u8]
}

pub open spec fn kw_ping_pong() -> Seq<u8> {
    seq![80u8, 105u8, 110u8, 103u8, 80u8, 111u8, 110u8, 103u8]
}

pub open spec fn kw_some() -> Seq<u8> {
    seq![83u8, 111u8, 109u8, 101u8]
}

pub open spec fn kw_none() -> Seq<u8> {
    seq![78u8, 111u8, 110u8, 101u8]
}

pub open spec fn kw_null() -> Seq<u8> {
    seq![110u8, 117u8, 108u8, 108u8]
}

/// Classify a word of either notation.
pub open spec fn spec_keyword(w: Seq<u8>) -> Keyword {
    if w == kw_mode() {
        Keyword::Mode
    } else if w == kw_frame_duration() {
        Keyword::FrameDuration
    } else if w == kw_frames() {
        Keyword::Frames
    } else if w == kw_index() {
        Keyword::Index
    } else if w == kw_duration() {
        Keyword::Duration
    } else if w == kw_repeat() {
        Keyword::Repeat
    } else if w == kw_repeat_from() {
        Keyword::RepeatFrom
    } else if w == kw_once() {
        Keyword::Once
    } else if w == kw_ping_pong() {
        Keyword::PingPong
    } else if w == kw_some() {
        Keyword::SomeWord
    } else if w == kw_none() {
        Keyword::NoneWord
    } else if w == kw_null() {
        Keyword::NullWord
    } else {
        Keyword::Other
    }
}

pub(crate) fn byte_at(s: &[u8], i: usize) -> (b: u8)
    requires
        i < s@.len(),
    ensures
        b == s@[i as int],
{
    *vstd::slice::slice_index_get(s, i)
}

pub(crate) fn keyword_of(w: &[u8]) -> (k: Keyword)
    ensures
        k == spec_keyword(w@),
{
    let n = w.len();
    if n == 4 && byte_at(w, 0) == 109 && byte_at(w, 1) == 111 && byte_at(w, 2) == 100 && byte_at(
        w,
        3,
    ) == 101 {
        proof {
            assert(w@ =~= kw_mode());
        }
        return Keyword::Mode;
    }
    if n == 14 && byte_at(w, 0) == 102 && byte_at(w, 1) == 114 && byte_at(w, 2) == 97 && byte_at(
        w,
        3,
    ) == 109 && byte_at(w, 4) == 101 && byte_at(w, 5) == 95 && byte_at(w, 6) == 100 && byte_at(
        w,
        7,
    ) == 117 && byte_at(w, 8) == 114 && byte_at(w, 9) == 97 && byte_at(w, 10) == 116 && byte_at(
        w,
        11,
    ) == 105 && byte_at(w, 12) == 111 && byte_at(w, 13) == 110 {
        proof {
            assert(w@ =~= kw_frame_duration());
        }
        return Keyword::FrameDuration;
    }
    if n == 6 && byte_at(w, 0) == 102 && byte_at(w, 1) == 114 && byte_at(w, 2) == 97 && byte_at(
        w,
        3,
    ) == 109 && byte_at(w, 4) == 101 && byte_at(w, 5) == 115 {
        proof {
            assert(w@ =~= kw_frames());
        }
        return Keyword::Frames;
    }
    if n == 5 && byte_at(w, 0) == 105 && byte_at(w, 1) == 110 && byte_at(w, 2) == 100 && byte_at(
        w,
        3,
    ) == 101 && byte_at(w, 4) == 120 {
        proof {
            assert(w@ =~= kw_index());
        }
        return Keyword::Index;
    }
    if n == 8 && byte_at(w, 0) == 100 && byte_at(w, 1) == 117 && byte_at(w, 2) == 114 && byte_at(
        w,
        3,
    ) == 97 && byte_at(w, 4) == 116 && byte_at(w, 5) == 105 && byte_at(w, 6) == 111 && byte_at(
        w,
        7,
    ) == 110 {
        proof {
            assert(w@ =~= kw_duration());
        }
        return Keyword::Duration;
    }
    if n == 6 && byte_at(w, 0) == 82 && byte_at(w, 1) == 101 && byte_at(w, 2) == 112 && byte_at(
        w,
        3,
    ) == 101 && byte_at(w, 4) == 97 && byte_at(w, 5) == 116 {
        proof {
            assert(w@ =~= kw_repeat());
        }
        return Keyword::Repeat;
    }
    if n == 10 && byte_at(w, 0) == 82 && byte_at(w, 1) == 101 && byte_at(w, 2) == 112 && byte_at(
        w,
        3,
    ) == 101 && byte_at(w, 4) == 97 && byte_at(w, 5) == 116 && byte_at(w, 6) == 70 && byte_at(
        w,
        7,
    ) == 114 && byte_at(w, 8) == 111 && byte_at(w, 9) == 109 {
        proof {
            assert(w@ =~= kw_repeat_from());
        }
        return Keyword::RepeatFrom;
    }
    if n == 4 && byte_at(w, 0) == 79 && byte_at(w, 1) == 110 && byte_at(w, 2) == 99 && byte_at(
        w,
        3,
    ) == 101 {
        proof {
            assert(w@ =~= kw_once());
        }
        return Keyword::Once;
    }
    if n == 8 && byte_at(w, 0) == 80 && byte_at(w, 1) == 105 && byte_at(w, 2) == 110 && byte_at(
        w,
        3,
    ) == 103 && byte_at(w, 4) == 80 && byte_at(w, 5) == 111 && byte_at(w, 6) == 110 && byte_at(
        w,
        7,
    ) == 103 {
        proof {
            assert(w@ =~= kw_ping_pong());
        }
        return Keyword::PingPong;
    }
    if n == 4 && byte_at(w, 0) == 83 && byte_at(w, 1) == 111 && byte_at(w, 2) == 109 && byte_at(
        w,
        3,
    ) == 101 {
        proof {
            assert(w@ =~= kw_some());
        }
        return Keyword::SomeWord;
    }
    if n == 4 && byte_at(w, 0) == 78 && byte_at(w, 1) == 111 && byte_at(w, 2) == 110 && byte_at(
        w,
        3,
    ) == 101 {
        proof {
            assert(w@ =~= kw_none());
        }
        return Keyword::NoneWord;
    }
    if n == 4 && byte_at(w, 0) == 110 && byte_at(w, 1) == 117 && byte_at(w, 2) == 108 && byte_at(
        w,
        3,
    ) == 108 {
        proof {
            assert(w@ =~= kw_null());
        }
        return Keyword::NullWord;
    }
    Keyword::Other
}

/// A field's value inside a structured entry: a number, or an explicit null.
#[derive(PartialEq, Eq, Structural, Clone, Copy, Debug)]
pub enum FieldValue {
    Num(u64),
    Null,
}

/// Accumulator for decoding one structured frame entry field by field, in
/// source order. The outer `Option` of `duration` records whether the field
/// was seen at all; the inner one is its value, with `None` for an explicit
/// null.
#[derive(PartialEq, Eq, Structural, Clone, Copy, Debug)]
pub struct FrameAcc {
    pub index: Option<usize>,
    pub duration: Option<Option<u64>>,
}

pub open spec fn spec_frame_acc_empty() -> FrameAcc {
    FrameAcc { index: None, duration: None }
}

pub fn frame_acc_empty() -> (r: FrameAcc)
    ensures
        r == spec_frame_acc_empty(),
{
    FrameAcc { index: None, duration: None }
}

/// One field of a structured frame entry. Exactly the keys `index` and
/// `duration` are permitted, each at most once; any other key is a hard
/// decoding failure.
pub open spec fn spec_frame_acc_field(acc: FrameAcc, key: Seq<u8>, val: FieldValue) -> Result<
    FrameAcc,
    ErrorModel,
> {
    if spec_keyword(key) == Keyword::Index {
        if acc.index is Some {
            Err(ErrorModel { kind: ErrorKind::DuplicateField, detail: Some(key) })
        } else {
            match val {
                FieldValue::Num(v) => if v <= usize::MAX as u64 {
                    Ok(FrameAcc { index: Some(v as usize), ..acc })
                } else {
                    Err(ErrorModel { kind: ErrorKind::IntOutOfRange, detail: None })
                },
                FieldValue::Null => Err(ErrorModel { kind: ErrorKind::Syntax, detail: None }),
            }
        }
    } else if spec_keyword(key) == Keyword::Duration {
        if acc.duration is Some {
            Err(ErrorModel { kind: ErrorKind::DuplicateField, detail: Some(key) })
        } else {
            match val {
                FieldValue::Num(v) => Ok(FrameAcc { duration: Some(Some(v)), ..acc }),
                FieldValue::Null => Ok(FrameAcc { duration: Some(None), ..acc }),
            }
        }
    } else {
        Err(ErrorModel { kind: ErrorKind::UnknownFrameField, detail: Some(key) })
    }
}

pub fn frame_acc_field(acc: FrameAcc, key: &[u8], val: FieldValue) -> (r: Result<
    FrameAcc,
    AnimationParseError,
>)
    ensures
        lift(r) == spec_frame_acc_field(acc, key@, val),
{
    let kw = keyword_of(key);
    if matches!(kw, Keyword::Index) {
        if acc.index.is_some() {
            Err(AnimationParseError::with_detail(ErrorKind::DuplicateField, vstd::slice::slice_to_vec(key)))
        } else {
            match val {
                FieldValue::Num(v) => if v <= usize::MAX as u64 {
                    Ok(FrameAcc { index: Some(v as usize), ..acc })
                } else {
                    Err(AnimationParseError::new(ErrorKind::IntOutOfRange))
                },
                FieldValue::Null => Err(AnimationParseError::new(ErrorKind::Syntax)),
            }
        }
    } else if matches!(kw, Keyword::Duration) {
        if acc.duration.is_some() {
            Err(AnimationParseError::with_detail(ErrorKind::DuplicateField, vstd::slice::slice_to_vec(key)))
        } else {
            match val {
                FieldValue::Num(v) => Ok(FrameAcc { duration: Some(Some(v)), ..acc }),
                FieldValue::Null => Ok(FrameAcc { duration: Some(None), ..acc }),
            }
        }
    } else {
        Err(AnimationParseError::with_detail(ErrorKind::UnknownFrameField, vstd::slice::slice_to_vec(key)))
    }
}

/// Close a structured frame entry: `index` is required, `duration` optional,
/// an explicit null duration counting as absent.
pub open spec fn spec_frame_acc_finish(acc: FrameAcc) -> Result<RawFrame, ErrorModel> {
    match acc.index {
        Some(ix) => Ok(
            RawFrame {
                index: ix,
                duration: match acc.duration {
                    Some(d) => d,
                    None => None,
                },
            },
        ),
        None => Err(ErrorModel { kind: ErrorKind::MissingIndex, detail: None }),
    }
}

pub fn frame_acc_finish(acc: FrameAcc) -> (r: Result<RawFrame, AnimationParseError>)
    ensures
        lift(r) == spec_frame_acc_finish(acc),
{
    match acc.index {
        Some(ix) => Ok(
            RawFrame {
                index: ix,
                duration: match acc.duration {
                    Some(d) => d,
                    None => None,
                },
            },
        ),
        None => Err(AnimationParseError::new(ErrorKind::MissingIndex)),
    }
}

/// A bare frame entry: a single non-negative integer literal, which must fit
/// the platform's index type; it inherits the shared duration.
pub open spec fn spec_frame_from_bare(v: int, lit: Seq<u8>) -> Result<RawFrame, ErrorModel> {
    if v <= usize::MAX as int {
        Ok(RawFrame { index: v as usize, duration: None })
    } else {
        Err(ErrorModel { kind: ErrorKind::IntOutOfRange, detail: Some(lit) })
    }
}

pub fn frame_from_bare(v: u64, lit: Vec<u8>) -> (r: Result<RawFrame, AnimationParseError>)
    ensures
        lift(r) == spec_frame_from_bare(v as int, lit@),
{
    if v <= usize::MAX as u64 {
        Ok(RawFrame { index: v as usize, duration: None })
    } else {
        Err(AnimationParseError::with_detail(ErrorKind::IntOutOfRange, lit))
    }
}

/// A loop-mode selector written as a single word.
pub open spec fn spec_mode_word(w: Seq<u8>) -> Result<RawMode, ErrorModel> {
    match spec_keyword(w) {
        Keyword::Repeat => Ok(RawMode::Repeat),
        Keyword::Once => Ok(RawMode::Once),
        Keyword::PingPong => Ok(RawMode::PingPong),
        _ => Err(ErrorModel { kind: ErrorKind::BadMode, detail: Some(w) }),
    }
}

pub fn mode_word(w: &[u8]) -> (r: Result<RawMode, AnimationParseError>)
    ensures
        lift(r) == spec_mode_word(w@),
{
    match keyword_of(w) {
        Keyword::Repeat => Ok(RawMode::Repeat),
        Keyword::Once => Ok(RawMode::Once),
        Keyword::PingPong => Ok(RawMode::PingPong),
        _ => Err(AnimationParseError::with_detail(ErrorKind::BadMode, vstd::slice::slice_to_vec(w))),
    }
}

/// A loop-mode selector written with an argument: only `RepeatFrom` takes
/// one, the resume position within the frame list. No bound against the
/// eventual frame count is checked here; that is the playback runtime's
/// contract.
pub open spec fn spec_mode_with_arg(w: Seq<u8>, k: int) -> Result<RawMode, ErrorModel> {
    if spec_keyword(w) == Keyword::RepeatFrom {
        if k <= usize::MAX as int {
            Ok(RawMode::RepeatFrom(k as usize))
        } else {
            Err(ErrorModel { kind: ErrorKind::IntOutOfRange, detail: None })
        }
    } else {
        Err(ErrorModel { kind: ErrorKind::BadMode, detail: Some(w) })
    }
}

pub fn mode_with_arg(w: &[u8], k: u64) -> (r: Result<RawMode, AnimationParseError>)
    ensures
        lift(r) == spec_mode_with_arg(w@, k as int),
{
    if matches!(keyword_of(w), Keyword::RepeatFrom) {
        if k <= usize::MAX as u64 {
            Ok(RawMode::RepeatFrom(k as usize))
        } else {
            Err(AnimationParseError::new(ErrorKind::IntOutOfRange))
        }
    } else {
        Err(AnimationParseError::with_detail(ErrorKind::BadMode, vstd::slice::slice_to_vec(w)))
    }
}

/// Mathematical model of a [`DocAcc`].
pub struct DocAccModel {
    pub mode: Option<RawMode>,
    pub frame_duration: Option<Option<u64>>,
    pub frames: Option<Seq<RawFrame>>,
}

/// Accumulator for the three document fields. Each outer `Option` records
/// whether the field was seen, so that a duplicate can be refused; a null
/// shared duration counts as seen-but-absent.
#[derive(Debug)]
pub struct DocAcc {
    pub mode: Option<RawMode>,
    pub frame_duration: Option<Option<u64>>,
    pub frames: Option<Vec<RawFrame>>,
}

impl View for DocAcc {
    type V = DocAccModel;

    open spec fn view(&self) -> DocAccModel {
        DocAccModel {
            mode: self.mode,
            frame_duration: self.frame_duration,
            frames: match self.frames {
                Some(v) => Some(v@),
                None => None,
            },
        }
    }
}

pub fn doc_acc_empty() -> (r: DocAcc)
    ensures
        r@ == (DocAccModel { mode: None, frame_duration: None, frames: None }),
{
    DocAcc { mode: None, frame_duration: None, frames: None }
}

/// Close the document: `frames` is required; an absent `mode` defaults to
/// `Repeat`; an absent or null shared duration leaves every frame to its own.
pub open spec fn spec_doc_finish(acc: DocAccModel) -> Result<DifModel, ErrorModel> {
    match acc.frames {
        Some(fs) => Ok(
            DifModel {
                mode: match acc.mode {
                    Some(m) => m,
                    None => RawMode::Repeat,
                },
                frame_duration: match acc.frame_duration {
                    Some(d) => d,
                    None => None,
                },
                frames: fs,
            },
        ),
        None => Err(ErrorModel { kind: ErrorKind::MissingFrames, detail: None }),
    }
}

/// Lift an executable intermediate-form result to its model.
pub open spec fn lift_dif(r: Result<AnimationDif, AnimationParseError>) -> Result<
    DifModel,
    ErrorModel,
> {
    match r {
        Ok(d) => Ok(d@),
        Err(e) => Err(e@),
    }
}

pub fn doc_finish(acc: DocAcc) -> (r: Result<AnimationDif, AnimationParseError>)
    ensures
        lift_dif(r) == spec_doc_finish(acc@),
{
    match acc.frames {
        Some(fs) => Ok(
            AnimationDif {
                mode: match acc.mode {
                    Some(m) => m,
                    None => RawMode::Repeat,
                },
                frame_duration: match acc.frame_duration {
                    Some(d) => d,
                    None => None,
                },
                frames: fs,
            },
        ),
        None => Err(AnimationParseError::new(ErrorKind::MissingFrames)),
    }
}

} // verus!
