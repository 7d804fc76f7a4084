//! Error taxonomy: decoding errors (the document was not well formed) and the
//! one validation error (a frame's effective duration was absent or zero).
use vstd::prelude::*;

verus! {

/// What went wrong during a parse.
///
/// Every variant but `ZeroDuration` is a decoding error: the document text did
/// not match the schema. `ZeroDuration` is a validation error: the document
/// was well formed, but a frame's effective duration resolved to absent or
/// zero.
#[derive(PartialEq, Eq, Structural, Clone, Copy, Debug)]
pub enum ErrorKind {
    /// Malformed document syntax.
    Syntax,
    /// A numeric literal does not fit the platform's non-negative index type;
    /// the offending literal is kept beside the kind.
    IntOutOfRange,
    /// A structured frame entry holds a key other than `index` or `duration`;
    /// the offending key is kept beside the kind.
    UnknownFrameField,
    /// A field appeared twice in one record.
    DuplicateField,
    /// A frame entry is neither a bare index nor an index-with-duration record.
    BadFrameEntry,
    /// A structured frame entry has no `index` field.
    MissingIndex,
    /// The `mode` field is not one of the four accepted selectors.
    BadMode,
    /// The document has no `frames` field.
    MissingFrames,
    /// A frame's effective duration is absent or zero.
    ZeroDuration,
}

/// Validation failure of the canonicalization step.
#[derive(PartialEq, Eq, Structural, Clone, Copy, Debug)]
pub enum InvalidAnimation {
    /// Some frame's duration, after override-then-shared-default resolution,
    /// is absent or zero.
    ZeroDuration,
}

/// Mathematical model of an [`AnimationParseError`].
pub struct ErrorModel {
    pub kind: ErrorKind,
    pub detail: Option<Seq<u8>>,
}

/// Error returned by the public parse entry points.
#[derive(Debug)]
pub struct AnimationParseError {
    kind: ErrorKind,
    detail: Option<Vec<u8>>,
}

impl View for AnimationParseError {
    type V = ErrorModel;

    closed spec fn view(&self) -> ErrorModel {
        ErrorModel {
            kind: self.kind,
            detail: match self.detail {
                Some(v) => Some(v@),
                None => None,
            },
        }
    }
}

impl AnimationParseError {
    /// Wrap an error kind with no detail text.
    pub fn new(kind: ErrorKind) -> (r: Self)
        ensures
            r@ == (ErrorModel { kind, detail: None }),
    {
        AnimationParseError { kind, detail: None }
    }

    /// Wrap an error kind together with the offending text (a literal that
    /// does not fit, or an unknown record key).
    pub fn with_detail(kind: ErrorKind, detail: Vec<u8>) -> (r: Self)
        ensures
            r@ == (ErrorModel { kind, detail: Some(detail@) }),
    {
        AnimationParseError { kind, detail: Some(detail) }
    }

    /// The class of failure.
    pub fn kind(&self) -> (k: ErrorKind)
        ensures
            k == self@.kind,
    {
        self.kind
    }

    /// The offending text, where the kind carries one: the literal that does
    /// not fit for `IntOutOfRange`, the unknown key for `UnknownFrameField`.
    pub fn detail(&self) -> (d: &Option<Vec<u8>>)
        ensures
            self@.detail is Some <==> d is Some,
            d matches Some(v) ==> self@.detail == Some(v@),
    {
        &self.detail
    }

    /// True of every decoding error: the document text did not match the
    /// schema.
    pub fn is_decoding_error(&self) -> (r: bool)
        ensures
            r == (self@.kind != ErrorKind::ZeroDuration),
    {
        !matches!(self.kind, ErrorKind::ZeroDuration)
    }

    /// A human-readable description of the failure.
    pub fn message(&self) -> (r: String)
        ensures
            r@ == spec_message(self@.kind),
    {
        let m: &str = match self.kind {
            ErrorKind::Syntax => "animation format is invalid: malformed document",
            ErrorKind::IntOutOfRange => "animation format is invalid: integer literal out of range, expected either a frame index, or a frame-index with a duration",
            ErrorKind::UnknownFrameField => "animation format is invalid: unknown field in frame entry, expected either a frame index, or a frame-index with a duration",
            ErrorKind::DuplicateField => "animation format is invalid: duplicate field",
            ErrorKind::BadFrameEntry => "animation format is invalid: expected either a frame index, or a frame-index with a duration",
            ErrorKind::MissingIndex => "animation format is invalid: frame entry has no index",
            ErrorKind::BadMode => "animation format is invalid: unknown mode",
            ErrorKind::MissingFrames => "animation format is invalid: missing frames",
            ErrorKind::ZeroDuration => "invalid duration, must be > 0",
        };
        m.to_owned()
    }
}

/// The description each error kind carries.
pub open spec fn spec_message(kind: ErrorKind) -> Seq<char> {
    match kind {
        ErrorKind::Syntax => "animation format is invalid: malformed document"@,
        ErrorKind::IntOutOfRange => "animation format is invalid: integer literal out of range, expected either a frame index, or a frame-index with a duration"@,
        ErrorKind::UnknownFrameField => "animation format is invalid: unknown field in frame entry, expected either a frame index, or a frame-index with a duration"@,
        ErrorKind::DuplicateField => "animation format is invalid: duplicate field"@,
        ErrorKind::BadFrameEntry => "animation format is invalid: expected either a frame index, or a frame-index with a duration"@,
        ErrorKind::MissingIndex => "animation format is invalid: frame entry has no index"@,
        ErrorKind::BadMode => "animation format is invalid: unknown mode"@,
        ErrorKind::MissingFrames => "animation format is invalid: missing frames"@,
        ErrorKind::ZeroDuration => "invalid duration, must be > 0"@,
    }
}

/// Lift an executable result to its model, for results whose success value is
/// already a plain mathematical value.
pub open spec fn lift<T>(r: Result<T, AnimationParseError>) -> Result<T, ErrorModel> {
    match r {
        Ok(t) => Ok(t),
        Err(e) => Err(e@),
    }
}

} // verus!
