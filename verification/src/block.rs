//! The block-notation adapter: an indentation-structured document of
//! `key: value` lines, with `#` comments, block sequences introduced by `-`
//! at the key's own column or deeper, and single-line flow lists holding
//! bare indices or `{...}` records. The grammar below is the notation's
//! definition; parsing yields the intermediate form that the shared
//! canonicalization step consumes.
use vstd::prelude::*;

use crate::decode::byte_at;
use crate::decode::doc_acc_empty;
use crate::decode::doc_finish;
use crate::decode::frame_acc_empty;
use crate::decode::frame_acc_field;
use crate::decode::frame_acc_finish;
use crate::decode::frame_from_bare;
use crate::decode::keyword_of;
use crate::decode::lift_dif;
use crate::decode::mode_with_arg;
use crate::decode::mode_word;
use crate::decode::spec_frame_acc_empty;
use crate::decode::spec_frame_acc_field;
use crate::decode::spec_frame_acc_finish;
use crate::decode::spec_frame_from_bare;
use crate::decode::spec_keyword;
use crate::decode::spec_mode_with_arg;
use crate::decode::spec_mode_word;
use crate::decode::spec_doc_finish;
use crate::decode::DocAcc;
use crate::decode::DocAccModel;
use crate::decode::FieldValue;
use crate::decode::FrameAcc;
use crate::decode::Keyword;
use crate::dif::AnimationDif;
use crate::dif::DifModel;
use crate::dif::RawFrame;
use crate::dif::RawMode;
use crate::error::AnimationParseError;
use crate::error::ErrorKind;
use crate::error::ErrorModel;
use crate::scan::bump;
use crate::scan::copy_range;
use crate::scan::is_digit;
use crate::scan::is_digit_x;
use crate::scan::is_word_byte;
use crate::scan::is_word_byte_x;
use crate::scan::parse_uint;
use crate::scan::skip_spaces;
use crate::scan::spec_bump;
use crate::scan::spec_parse_uint;
use crate::scan::spec_skip_spaces;
use crate::scan::spec_word_end;
use crate::scan::word_end;
use crate::scan::COLON;
use crate::scan::DASH;
use crate::scan::HASH;
use crate::scan::LBRACK;
use crate::scan::NL;
use crate::scan::RBRACK;
use crate::scan::COMMA;
use crate::scan::LBRACE;
use crate::scan::RBRACE;
use crate::scan::TILDE;

verus! {

/// The position of this line's newline byte, or the end of input.
pub open spec fn spec_line_end(s: Seq<u8>, i: int) -> int
    recommends
        0 <= i <= s.len(),
    decreases s.len() - i,
{
    if i < s.len() && s[i] != NL {
        spec_line_end(s, i + 1)
    } else {
        i
    }
}

pub(crate) fn line_end(s: &[u8], i: usize) -> (j: usize)
    requires
        i <= s@.len(),
    ensures
        j == spec_line_end(s@, i as int),
        i <= j <= s@.len(),
    decreases s@.len() - i,
{
    if i < s.len() && byte_at(s, i) != NL {
        line_end(s, i + 1)
    } else {
        i
    }
}

/// The start of the next line, or the end of input on the last line.
pub open spec fn spec_next_line(s: Seq<u8>, i: int) -> int
    recommends
        0 <= i <= s.len(),
{
    let e = spec_line_end(s, i);
    if e < s.len() {
        e + 1
    } else {
        e
    }
}

fn next_line(s: &[u8], i: usize) -> (j: usize)
    requires
        i <= s@.len(),
    ensures
        j == spec_next_line(s@, i as int),
        i <= j <= s@.len(),
{
    let e = line_end(s, i);
    if e < s.len() {
        e + 1
    } else {
        e
    }
}

/// Nothing but spaces remains before the line ends. A comment counts as
/// ending the line only when at least one space stands before its `#`: a
/// `#` glued to a value belongs to the value and is malformed.
pub open spec fn spec_rest_blank(s: Seq<u8>, i: int) -> bool
    recommends
        0 <= i <= s.len(),
{
    let k = spec_skip_spaces(s, i);
    k >= s.len() || s[k] == NL || (s[k] == HASH && k > i)
}

fn rest_blank(s: &[u8], i: usize) -> (r: bool)
    requires
        i <= s@.len(),
    ensures
        r == spec_rest_blank(s@, i as int),
{
    let k = skip_spaces(s, i);
    if k >= s.len() {
        true
    } else {
        let b = byte_at(s, k);
        b == NL || (b == HASH && k > i)
    }
}

/// One `key: value` field of a structured frame entry, starting at its key:
/// the value is an integer literal, a null (blank, `null` or `~`), nothing
/// else.
pub open spec fn spec_field_at(s: Seq<u8>, p: int, acc: FrameAcc) -> Result<
    (FrameAcc, int),
    ErrorModel,
>
    recommends
        0 <= p <= s.len(),
{
    let we = spec_word_end(s, p);
    if we == p {
        Err(ErrorModel { kind: ErrorKind::Syntax, detail: None })
    } else if we >= s.len() || s[we] != COLON {
        Err(ErrorModel { kind: ErrorKind::Syntax, detail: None })
    } else {
        let key = s.subrange(p, we);
        let kk = spec_skip_spaces(s, we + 1);
        if kk >= s.len() || s[kk] == NL || (s[kk] == HASH && kk > we + 1) {
            match spec_frame_acc_field(acc, key, FieldValue::Null) {
                Ok(a2) => Ok((a2, kk)),
                Err(e) => Err(e),
            }
        } else if s[kk] == TILDE {
            match spec_frame_acc_field(acc, key, FieldValue::Null) {
                Ok(a2) => Ok((a2, kk + 1)),
                Err(e) => Err(e),
            }
        } else if is_digit(s[kk]) {
            match spec_parse_uint(s, kk) {
                Ok((v, j)) => match spec_frame_acc_field(acc, key, FieldValue::Num(v as u64)) {
                    Ok(a2) => Ok((a2, j)),
                    Err(e) => Err(e),
                },
                Err(e) => Err(e),
            }
        } else if is_word_byte(s[kk]) && spec_keyword(s.subrange(kk, spec_word_end(s, kk)))
            == Keyword::NullWord {
            match spec_frame_acc_field(acc, key, FieldValue::Null) {
                Ok(a2) => Ok((a2, spec_word_end(s, kk))),
                Err(e) => Err(e),
            }
        } else {
            Err(ErrorModel { kind: ErrorKind::Syntax, detail: None })
        }
    }
}

/// Lift an executable accumulator-and-position result to its model.
pub open spec fn lift_acc_pos(r: Result<(FrameAcc, usize), AnimationParseError>) -> Result<
    (FrameAcc, int),
    ErrorModel,
> {
    match r {
        Ok((a, j)) => Ok((a, j as int)),
        Err(e) => Err(e@),
    }
}

fn field_at(s: &[u8], p: usize, acc: FrameAcc) -> (r: Result<(FrameAcc, usize), AnimationParseError>)
    requires
        p <= s@.len(),
    ensures
        lift_acc_pos(r) == spec_field_at(s@, p as int, acc),
        r matches Ok((_, j)) ==> j <= s@.len(),
{
    let we = word_end(s, p);
    if we == p {
        Err(AnimationParseError::new(ErrorKind::Syntax))
    } else if we >= s.len() || byte_at(s, we) != COLON {
        Err(AnimationParseError::new(ErrorKind::Syntax))
    } else {
        let kk = skip_spaces(s, we + 1);
        if kk >= s.len() || byte_at(s, kk) == NL || (byte_at(s, kk) == HASH && kk > we + 1) {
            match frame_acc_field(acc, copy_range(s, p, we).as_slice(), FieldValue::Null) {
                Ok(a2) => Ok((a2, kk)),
                Err(e) => Err(e),
            }
        } else if byte_at(s, kk) == TILDE {
            match frame_acc_field(acc, copy_range(s, p, we).as_slice(), FieldValue::Null) {
                Ok(a2) => Ok((a2, kk + 1)),
                Err(e) => Err(e),
            }
        } else if is_digit_x(byte_at(s, kk)) {
            match parse_uint(s, kk) {
                Ok((v, j)) => match frame_acc_field(
                    acc,
                    copy_range(s, p, we).as_slice(),
                    FieldValue::Num(v),
                ) {
                    Ok(a2) => Ok((a2, j)),
                    Err(e) => Err(e),
                },
                Err(e) => Err(e),
            }
        } else if is_word_byte_x(byte_at(s, kk)) && matches!(
            keyword_of(copy_range(s, kk, word_end(s, kk)).as_slice()),
            Keyword::NullWord
        ) {
            match frame_acc_field(acc, copy_range(s, p, we).as_slice(), FieldValue::Null) {
                Ok(a2) => Ok((a2, word_end(s, kk))),
                Err(e) => Err(e),
            }
        } else {
            Err(AnimationParseError::new(ErrorKind::Syntax))
        }
    }
}

/// The continuation lines of a structured frame entry: `key: value` fields,
/// one per line, each at exactly the record's column. The record ends at the
/// first significant line with another indentation.
pub open spec fn spec_rec_fields(s: Seq<u8>, i: int, fcol: int, acc: FrameAcc) -> Result<
    (FrameAcc, int),
    ErrorModel,
>
    recommends
        0 <= i <= s.len(),
    decreases s.len() - i,
{
    if i >= s.len() {
        Ok((acc, i))
    } else {
        let k = spec_skip_spaces(s, i);
        if k >= s.len() {
            Ok((acc, s.len() as int))
        } else if s[k] == NL {
            spec_rec_fields(s, spec_bump(s.len() as int, i, k + 1), fcol, acc)
        } else if s[k] == HASH {
            spec_rec_fields(s, spec_bump(s.len() as int, i, spec_next_line(s, k)), fcol, acc)
        } else {
            let ind = k - i;
            if ind != fcol {
                Ok((acc, i))
            } else if !is_word_byte(s[k]) {
                Err(ErrorModel { kind: ErrorKind::Syntax, detail: None })
            } else {
                match spec_field_at(s, k, acc) {
                    Ok((a2, pos)) => if spec_rest_blank(s, pos) {
                        spec_rec_fields(
                            s,
                            spec_bump(s.len() as int, i, spec_next_line(s, pos)),
                            fcol,
                            a2,
                        )
                    } else {
                        Err(ErrorModel { kind: ErrorKind::Syntax, detail: None })
                    },
                    Err(e) => Err(e),
                }
            }
        }
    }
}

fn rec_fields(s: &[u8], i: usize, fcol: usize, acc: FrameAcc) -> (r: Result<
    (FrameAcc, usize),
    AnimationParseError,
>)
    requires
        i <= s@.len(),
    ensures
        lift_acc_pos(r) == spec_rec_fields(s@, i as int, fcol as int, acc),
        r matches Ok((_, j)) ==> j <= s@.len(),
    decreases s@.len() - i,
{
    if i >= s.len() {
        Ok((acc, i))
    } else {
        let k = skip_spaces(s, i);
        if k >= s.len() {
            Ok((acc, s.len()))
        } else if byte_at(s, k) == NL {
            rec_fields(s, bump(s.len(), i, k + 1), fcol, acc)
        } else if byte_at(s, k) == HASH {
            rec_fields(s, bump(s.len(), i, next_line(s, k)), fcol, acc)
        } else {
            let ind = k - i;
            if ind != fcol {
                Ok((acc, i))
            } else if !is_word_byte_x(byte_at(s, k)) {
                Err(AnimationParseError::new(ErrorKind::Syntax))
            } else {
                match field_at(s, k, acc) {
                    Ok((a2, pos)) => if rest_blank(s, pos) {
                        rec_fields(s, bump(s.len(), i, next_line(s, pos)), fcol, a2)
                    } else {
                        Err(AnimationParseError::new(ErrorKind::Syntax))
                    },
                    Err(e) => Err(e),
                }
            }
        }
    }
}

/// A block sequence of frame entries: `- ` items at one shared indentation,
/// either at the introducing key's own column or deeper, each a bare index
/// or the first field of a structured entry whose further fields follow on
/// deeper lines. The sequence ends at the first significant line left of the
/// key's column, or at a non-dash line at or left of it.
pub open spec fn spec_seq_rec(
    s: Seq<u8>,
    i: int,
    base: int,
    item: Option<int>,
    fs: Seq<RawFrame>,
) -> Result<(Seq<RawFrame>, int), ErrorModel>
    recommends
        0 <= i <= s.len(),
    decreases s.len() - i,
{
    if i >= s.len() {
        Ok((fs, i))
    } else {
        let k = spec_skip_spaces(s, i);
        if k >= s.len() {
            Ok((fs, s.len() as int))
        } else if s[k] == NL {
            spec_seq_rec(s, spec_bump(s.len() as int, i, k + 1), base, item, fs)
        } else if s[k] == HASH {
            spec_seq_rec(s, spec_bump(s.len() as int, i, spec_next_line(s, k)), base, item, fs)
        } else {
            let ind = k - i;
            if ind < base || (ind == base && s[k] != DASH) {
                Ok((fs, i))
            } else if match item {
                Some(it) => ind != it,
                None => false,
            } {
                Err(ErrorModel { kind: ErrorKind::Syntax, detail: None })
            } else if s[k] != DASH {
                Err(ErrorModel { kind: ErrorKind::Syntax, detail: None })
            } else {
                let p = spec_skip_spaces(s, k + 1);
                if p >= s.len() {
                    Err(ErrorModel { kind: ErrorKind::Syntax, detail: None })
                } else if is_digit(s[p]) {
                    match spec_parse_uint(s, p) {
                        Ok((v, j)) => if spec_rest_blank(s, j) {
                            match spec_frame_from_bare(v, s.subrange(p, j)) {
                                Ok(f) => spec_seq_rec(
                                    s,
                                    spec_bump(s.len() as int, i, spec_next_line(s, j)),
                                    base,
                                    Some(ind),
                                    fs.push(f),
                                ),
                                Err(e) => Err(e),
                            }
                        } else {
                            Err(ErrorModel { kind: ErrorKind::Syntax, detail: None })
                        },
                        Err(e) => Err(e),
                    }
                } else if is_word_byte(s[p]) {
                    let fcol = p - i;
                    match spec_field_at(s, p, spec_frame_acc_empty()) {
                        Ok((a1, pos)) => if spec_rest_blank(s, pos) {
                            match spec_rec_fields(
                                s,
                                spec_bump(s.len() as int, i, spec_next_line(s, pos)),
                                fcol,
                                a1,
                            ) {
                                Ok((a2, nxt)) => match spec_frame_acc_finish(a2) {
                                    Ok(f) => spec_seq_rec(
                                        s,
                                        spec_bump(s.len() as int, i, nxt),
                                        base,
                                        Some(ind),
                                        fs.push(f),
                                    ),
                                    Err(e) => Err(e),
                                },
                                Err(e) => Err(e),
                            }
                        } else {
                            Err(ErrorModel { kind: ErrorKind::Syntax, detail: None })
                        },
                        Err(e) => Err(e),
                    }
                } else {
                    Err(ErrorModel { kind: ErrorKind::BadFrameEntry, detail: None })
                }
            }
        }
    }
}

/// Lift an executable frames-and-position result to its model.
pub open spec fn lift_frames_pos(r: Result<(Vec<RawFrame>, usize), AnimationParseError>) -> Result<
    (Seq<RawFrame>, int),
    ErrorModel,
> {
    match r {
        Ok((v, j)) => Ok((v@, j as int)),
        Err(e) => Err(e@),
    }
}

fn seq_rec(s: &[u8], i: usize, base: usize, item: Option<usize>, fs: Vec<RawFrame>) -> (r: Result<
    (Vec<RawFrame>, usize),
    AnimationParseError,
>)
    requires
        i <= s@.len(),
    ensures
        lift_frames_pos(r) == spec_seq_rec(
            s@,
            i as int,
            base as int,
            match item {
                Some(it) => Some(it as int),
                None => None,
            },
            fs@,
        ),
        r matches Ok((_, j)) ==> j <= s@.len(),
    decreases s@.len() - i,
{
    if i >= s.len() {
        Ok((fs, i))
    } else {
        let k = skip_spaces(s, i);
        if k >= s.len() {
            Ok((fs, s.len()))
        } else if byte_at(s, k) == NL {
            seq_rec(s, bump(s.len(), i, k + 1), base, item, fs)
        } else if byte_at(s, k) == HASH {
            seq_rec(s, bump(s.len(), i, next_line(s, k)), base, item, fs)
        } else {
            let ind = k - i;
            if ind < base || (ind == base && byte_at(s, k) != DASH) {
                Ok((fs, i))
            } else if match item {
                Some(it) => ind != it,
                None => false,
            } {
                Err(AnimationParseError::new(ErrorKind::Syntax))
            } else if byte_at(s, k) != DASH {
                Err(AnimationParseError::new(ErrorKind::Syntax))
            } else {
                let p = skip_spaces(s, k + 1);
                if p >= s.len() {
                    Err(AnimationParseError::new(ErrorKind::Syntax))
                } else if is_digit_x(byte_at(s, p)) {
                    match parse_uint(s, p) {
                        Ok((v, j)) => if rest_blank(s, j) {
                            match frame_from_bare(v, copy_range(s, p, j)) {
                                Ok(f) => {
                                    let mut fs2 = fs;
                                    fs2.push(f);
                                    seq_rec(
                                        s,
                                        bump(s.len(), i, next_line(s, j)),
                                        base,
                                        Some(ind),
                                        fs2,
                                    )
                                },
                                Err(e) => Err(e),
                            }
                        } else {
                            Err(AnimationParseError::new(ErrorKind::Syntax))
                        },
                        Err(e) => Err(e),
                    }
                } else if is_word_byte_x(byte_at(s, p)) {
                    let fcol = p - i;
                    match field_at(s, p, frame_acc_empty()) {
                        Ok((a1, pos)) => if rest_blank(s, pos) {
                            match rec_fields(s, bump(s.len(), i, next_line(s, pos)), fcol, a1) {
                                Ok((a2, nxt)) => match frame_acc_finish(a2) {
                                    Ok(f) => {
                                        let mut fs2 = fs;
                                        fs2.push(f);
                                        seq_rec(s, bump(s.len(), i, nxt), base, Some(ind), fs2)
                                    },
                                    Err(e) => Err(e),
                                },
                                Err(e) => Err(e),
                            }
                        } else {
                            Err(AnimationParseError::new(ErrorKind::Syntax))
                        },
                        Err(e) => Err(e),
                    }
                } else {
                    Err(AnimationParseError::new(ErrorKind::BadFrameEntry))
                }
            }
        }
    }
}

/// The fields of one flow mapping `{ key: value, ... }`, after its opening
/// brace: `index` and `duration` keys with integer or null values, up to and
/// including the closing brace, a trailing comma allowed.
pub open spec fn spec_flow_map(s: Seq<u8>, i: int, acc: FrameAcc) -> Result<
    (FrameAcc, int),
    ErrorModel,
>
    recommends
        0 <= i <= s.len(),
    decreases s.len() - i,
{
    if i >= s.len() {
        Err(ErrorModel { kind: ErrorKind::Syntax, detail: None })
    } else {
        let k = spec_skip_spaces(s, i);
        if k >= s.len() {
            Err(ErrorModel { kind: ErrorKind::Syntax, detail: None })
        } else if s[k] == RBRACE {
            Ok((acc, k + 1))
        } else if !is_word_byte(s[k]) || is_digit(s[k]) {
            Err(ErrorModel { kind: ErrorKind::Syntax, detail: None })
        } else {
            let we = spec_word_end(s, k);
            let key = s.subrange(k, we);
            if we >= s.len() || s[we] != COLON {
                Err(ErrorModel { kind: ErrorKind::Syntax, detail: None })
            } else {
                let vv = spec_skip_spaces(s, we + 1);
                let val: Result<(FieldValue, int), ErrorModel> = if vv >= s.len() {
                    Err(ErrorModel { kind: ErrorKind::Syntax, detail: None })
                } else if is_digit(s[vv]) {
                    match spec_parse_uint(s, vv) {
                        Ok((v, j)) => Ok((FieldValue::Num(v as u64), j)),
                        Err(e) => Err(e),
                    }
                } else if s[vv] == TILDE {
                    Ok((FieldValue::Null, vv + 1))
                } else if is_word_byte(s[vv]) && spec_keyword(s.subrange(vv, spec_word_end(s, vv)))
                    == Keyword::NullWord {
                    Ok((FieldValue::Null, spec_word_end(s, vv)))
                } else {
                    Err(ErrorModel { kind: ErrorKind::Syntax, detail: None })
                };
                match val {
                    Ok((v, pos)) => match spec_frame_acc_field(acc, key, v) {
                        Ok(a2) => {
                            let k2 = spec_skip_spaces(s, pos);
                            if k2 >= s.len() {
                                Err(ErrorModel { kind: ErrorKind::Syntax, detail: None })
                            } else if s[k2] == COMMA {
                                spec_flow_map(s, spec_bump(s.len() as int, i, k2 + 1), a2)
                            } else if s[k2] == RBRACE {
                                Ok((a2, k2 + 1))
                            } else {
                                Err(ErrorModel { kind: ErrorKind::Syntax, detail: None })
                            }
                        },
                        Err(e) => Err(e),
                    },
                    Err(e) => Err(e),
                }
            }
        }
    }
}

fn flow_map(s: &[u8], i: usize, acc: FrameAcc) -> (r: Result<(FrameAcc, usize), AnimationParseError>)
    requires
        i <= s@.len(),
    ensures
        lift_acc_pos(r) == spec_flow_map(s@, i as int, acc),
        r matches Ok((_, j)) ==> j <= s@.len(),
    decreases s@.len() - i,
{
    if i >= s.len() {
        Err(AnimationParseError::new(ErrorKind::Syntax))
    } else {
        let k = skip_spaces(s, i);
        if k >= s.len() {
            Err(AnimationParseError::new(ErrorKind::Syntax))
        } else if byte_at(s, k) == RBRACE {
            Ok((acc, k + 1))
        } else if !is_word_byte_x(byte_at(s, k)) || is_digit_x(byte_at(s, k)) {
            Err(AnimationParseError::new(ErrorKind::Syntax))
        } else {
            let we = word_end(s, k);
            if we >= s.len() || byte_at(s, we) != COLON {
                Err(AnimationParseError::new(ErrorKind::Syntax))
            } else {
                let vv = skip_spaces(s, we + 1);
                let val: Result<(FieldValue, usize), AnimationParseError> = if vv >= s.len() {
                    Err(AnimationParseError::new(ErrorKind::Syntax))
                } else if is_digit_x(byte_at(s, vv)) {
                    match parse_uint(s, vv) {
                        Ok((v, j)) => Ok((FieldValue::Num(v), j)),
                        Err(e) => Err(e),
                    }
                } else if byte_at(s, vv) == TILDE {
                    Ok((FieldValue::Null, vv + 1))
                } else if is_word_byte_x(byte_at(s, vv)) && matches!(
                    keyword_of(copy_range(s, vv, word_end(s, vv)).as_slice()),
                    Keyword::NullWord
                ) {
                    Ok((FieldValue::Null, word_end(s, vv)))
                } else {
                    Err(AnimationParseError::new(ErrorKind::Syntax))
                };
                match val {
                    Ok((v, pos)) => match frame_acc_field(
                        acc,
                        copy_range(s, k, we).as_slice(),
                        v,
                    ) {
                        Ok(a2) => {
                            let k2 = skip_spaces(s, pos);
                            if k2 >= s.len() {
                                Err(AnimationParseError::new(ErrorKind::Syntax))
                            } else if byte_at(s, k2) == COMMA {
                                flow_map(s, bump(s.len(), i, k2 + 1), a2)
                            } else if byte_at(s, k2) == RBRACE {
                                Ok((a2, k2 + 1))
                            } else {
                                Err(AnimationParseError::new(ErrorKind::Syntax))
                            }
                        },
                        Err(e) => Err(e),
                    },
                    Err(e) => Err(e),
                }
            }
        }
    }
}

/// A single-line flow list of frame entries: bare indices or `{...}`
/// records, possibly empty, with an optional trailing comma.
pub open spec fn spec_flow(s: Seq<u8>, i: int, fs: Seq<RawFrame>) -> Result<
    (Seq<RawFrame>, int),
    ErrorModel,
>
    recommends
        0 <= i <= s.len(),
    decreases s.len() - i,
{
    if i >= s.len() {
        Err(ErrorModel { kind: ErrorKind::Syntax, detail: None })
    } else {
        let k = spec_skip_spaces(s, i);
        if k >= s.len() {
            Err(ErrorModel { kind: ErrorKind::Syntax, detail: None })
        } else if s[k] == RBRACK {
            Ok((fs, k + 1))
        } else {
            let ent: Result<(RawFrame, int), ErrorModel> = if is_digit(s[k]) {
                match spec_parse_uint(s, k) {
                    Ok((v, j)) => match spec_frame_from_bare(v, s.subrange(k, j)) {
                        Ok(f) => Ok((f, j)),
                        Err(e) => Err(e),
                    },
                    Err(e) => Err(e),
                }
            } else if s[k] == LBRACE {
                match spec_flow_map(s, k + 1, spec_frame_acc_empty()) {
                    Ok((a, j)) => match spec_frame_acc_finish(a) {
                        Ok(f) => Ok((f, j)),
                        Err(e) => Err(e),
                    },
                    Err(e) => Err(e),
                }
            } else {
                Err(ErrorModel { kind: ErrorKind::BadFrameEntry, detail: None })
            };
            match ent {
                Ok((f, pos)) => {
                    let k2 = spec_skip_spaces(s, pos);
                    if k2 >= s.len() {
                        Err(ErrorModel { kind: ErrorKind::Syntax, detail: None })
                    } else if s[k2] == COMMA {
                        spec_flow(s, spec_bump(s.len() as int, i, k2 + 1), fs.push(f))
                    } else if s[k2] == RBRACK {
                        Ok((fs.push(f), k2 + 1))
                    } else {
                        Err(ErrorModel { kind: ErrorKind::Syntax, detail: None })
                    }
                },
                Err(e) => Err(e),
            }
        }
    }
}

fn flow(s: &[u8], i: usize, fs: Vec<RawFrame>) -> (r: Result<
    (Vec<RawFrame>, usize),
    AnimationParseError,
>)
    requires
        i <= s@.len(),
    ensures
        lift_frames_pos(r) == spec_flow(s@, i as int, fs@),
        r matches Ok((_, j)) ==> j <= s@.len(),
    decreases s@.len() - i,
{
    if i >= s.len() {
        Err(AnimationParseError::new(ErrorKind::Syntax))
    } else {
        let k = skip_spaces(s, i);
        if k >= s.len() {
            Err(AnimationParseError::new(ErrorKind::Syntax))
        } else if byte_at(s, k) == RBRACK {
            Ok((fs, k + 1))
        } else {
            let ent: Result<(RawFrame, usize), AnimationParseError> = if is_digit_x(
                byte_at(s, k),
            ) {
                match parse_uint(s, k) {
                    Ok((v, j)) => match frame_from_bare(v, copy_range(s, k, j)) {
                        Ok(f) => Ok((f, j)),
                        Err(e) => Err(e),
                    },
                    Err(e) => Err(e),
                }
            } else if byte_at(s, k) == LBRACE {
                match flow_map(s, k + 1, frame_acc_empty()) {
                    Ok((a, j)) => match frame_acc_finish(a) {
                        Ok(f) => Ok((f, j)),
                        Err(e) => Err(e),
                    },
                    Err(e) => Err(e),
                }
            } else {
                Err(AnimationParseError::new(ErrorKind::BadFrameEntry))
            };
            match ent {
                Ok((f, pos)) => {
                    let k2 = skip_spaces(s, pos);
                    if k2 >= s.len() {
                        Err(AnimationParseError::new(ErrorKind::Syntax))
                    } else if byte_at(s, k2) == COMMA {
                        let mut fs2 = fs;
                        fs2.push(f);
                        flow(s, bump(s.len(), i, k2 + 1), fs2)
                    } else if byte_at(s, k2) == RBRACK {
                        let mut fs2 = fs;
                        fs2.push(f);
                        Ok((fs2, k2 + 1))
                    } else {
                        Err(AnimationParseError::new(ErrorKind::Syntax))
                    }
                },
                Err(e) => Err(e),
            }
        }
    }
}

/// The nested form of the mode field: one deeper line `RepeatFrom: n`.
pub open spec fn spec_nested_mode(s: Seq<u8>, i: int, base: int) -> Result<
    (RawMode, int),
    ErrorModel,
>
    recommends
        0 <= i <= s.len(),
    decreases s.len() - i,
{
    if i >= s.len() {
        Err(ErrorModel { kind: ErrorKind::Syntax, detail: None })
    } else {
        let k = spec_skip_spaces(s, i);
        if k >= s.len() {
            Err(ErrorModel { kind: ErrorKind::Syntax, detail: None })
        } else if s[k] == NL {
            spec_nested_mode(s, spec_bump(s.len() as int, i, k + 1), base)
        } else if s[k] == HASH {
            spec_nested_mode(s, spec_bump(s.len() as int, i, spec_next_line(s, k)), base)
        } else if k - i <= base {
            Err(ErrorModel { kind: ErrorKind::Syntax, detail: None })
        } else {
            let we = spec_word_end(s, k);
            if we == k {
                Err(ErrorModel { kind: ErrorKind::Syntax, detail: None })
            } else if we >= s.len() || s[we] != COLON {
                Err(ErrorModel { kind: ErrorKind::Syntax, detail: None })
            } else {
                let kk = spec_skip_spaces(s, we + 1);
                if kk >= s.len() || !is_digit(s[kk]) {
                    Err(ErrorModel { kind: ErrorKind::Syntax, detail: None })
                } else {
                    match spec_parse_uint(s, kk) {
                        Ok((v, j)) => if spec_rest_blank(s, j) {
                            match spec_mode_with_arg(s.subrange(k, we), v) {
                                Ok(m) => Ok((m, spec_next_line(s, j))),
                                Err(e) => Err(e),
                            }
                        } else {
                            Err(ErrorModel { kind: ErrorKind::Syntax, detail: None })
                        },
                        Err(e) => Err(e),
                    }
                }
            }
        }
    }
}

/// Lift an executable mode-and-position result to its model.
pub open spec fn lift_mode_pos(r: Result<(RawMode, usize), AnimationParseError>) -> Result<
    (RawMode, int),
    ErrorModel,
> {
    match r {
        Ok((m, j)) => Ok((m, j as int)),
        Err(e) => Err(e@),
    }
}

fn nested_mode(s: &[u8], i: usize, base: usize) -> (r: Result<
    (RawMode, usize),
    AnimationParseError,
>)
    requires
        i <= s@.len(),
    ensures
        lift_mode_pos(r) == spec_nested_mode(s@, i as int, base as int),
        r matches Ok((_, j)) ==> j <= s@.len(),
    decreases s@.len() - i,
{
    if i >= s.len() {
        Err(AnimationParseError::new(ErrorKind::Syntax))
    } else {
        let k = skip_spaces(s, i);
        if k >= s.len() {
            Err(AnimationParseError::new(ErrorKind::Syntax))
        } else if byte_at(s, k) == NL {
            nested_mode(s, bump(s.len(), i, k + 1), base)
        } else if byte_at(s, k) == HASH {
            nested_mode(s, bump(s.len(), i, next_line(s, k)), base)
        } else if k - i <= base {
            Err(AnimationParseError::new(ErrorKind::Syntax))
        } else {
            let we = word_end(s, k);
            if we == k {
                Err(AnimationParseError::new(ErrorKind::Syntax))
            } else if we >= s.len() || byte_at(s, we) != COLON {
                Err(AnimationParseError::new(ErrorKind::Syntax))
            } else {
                let kk = skip_spaces(s, we + 1);
                if kk >= s.len() || !is_digit_x(byte_at(s, kk)) {
                    Err(AnimationParseError::new(ErrorKind::Syntax))
                } else {
                    match parse_uint(s, kk) {
                        Ok((v, j)) => if rest_blank(s, j) {
                            match mode_with_arg(copy_range(s, k, we).as_slice(), v) {
                                Ok(m) => Ok((m, next_line(s, j))),
                                Err(e) => Err(e),
                            }
                        } else {
                            Err(AnimationParseError::new(ErrorKind::Syntax))
                        },
                        Err(e) => Err(e),
                    }
                }
            }
        }
    }
}

/// The flow form of the mode field on its own line: `{ RepeatFrom: n }`,
/// starting at the opening brace.
pub open spec fn spec_mode_flow(s: Seq<u8>, i: int) -> Result<(RawMode, int), ErrorModel>
    recommends
        0 <= i <= s.len(),
{
    let w0 = spec_skip_spaces(s, i + 1);
    if w0 >= s.len() || !is_word_byte(s[w0]) || is_digit(s[w0]) {
        Err(ErrorModel { kind: ErrorKind::Syntax, detail: None })
    } else {
        let we = spec_word_end(s, w0);
        if we >= s.len() || s[we] != COLON {
            Err(ErrorModel { kind: ErrorKind::Syntax, detail: None })
        } else {
            let d0 = spec_skip_spaces(s, we + 1);
            if d0 >= s.len() || !is_digit(s[d0]) {
                Err(ErrorModel { kind: ErrorKind::Syntax, detail: None })
            } else {
                match spec_parse_uint(s, d0) {
                    Ok((kv, j)) => {
                        let e0 = spec_skip_spaces(s, j);
                        if e0 >= s.len() || s[e0] != RBRACE {
                            Err(ErrorModel { kind: ErrorKind::Syntax, detail: None })
                        } else {
                            match spec_mode_with_arg(s.subrange(w0, we), kv) {
                                Ok(m) => Ok((m, e0 + 1)),
                                Err(e) => Err(e),
                            }
                        }
                    },
                    Err(e) => Err(e),
                }
            }
        }
    }
}

fn mode_flow(s: &[u8], i: usize) -> (r: Result<(RawMode, usize), AnimationParseError>)
    requires
        i < s@.len(),
    ensures
        lift_mode_pos(r) == spec_mode_flow(s@, i as int),
        r matches Ok((_, j)) ==> j <= s@.len(),
{
    let n = s.len();
    let w0 = skip_spaces(s, i + 1);
    if w0 >= n || !is_word_byte_x(byte_at(s, w0)) || is_digit_x(byte_at(s, w0)) {
        Err(AnimationParseError::new(ErrorKind::Syntax))
    } else {
        let we = word_end(s, w0);
        if we >= s.len() || byte_at(s, we) != COLON {
            Err(AnimationParseError::new(ErrorKind::Syntax))
        } else {
            let d0 = skip_spaces(s, we + 1);
            if d0 >= s.len() || !is_digit_x(byte_at(s, d0)) {
                Err(AnimationParseError::new(ErrorKind::Syntax))
            } else {
                match parse_uint(s, d0) {
                    Ok((kv, j)) => {
                        let e0 = skip_spaces(s, j);
                        if e0 >= s.len() || byte_at(s, e0) != RBRACE {
                            Err(AnimationParseError::new(ErrorKind::Syntax))
                        } else {
                            match mode_with_arg(copy_range(s, w0, we).as_slice(), kv) {
                                Ok(m) => Ok((m, e0 + 1)),
                                Err(e) => Err(e),
                            }
                        }
                    },
                    Err(e) => Err(e),
                }
            }
        }
    }
}

/// Skip the lines an unknown top-level key owns: every significant line
/// deeper than `base`. The result is the start of the first line that is
/// not skipped.
pub open spec fn spec_skip_deeper(s: Seq<u8>, i: int, base: int) -> int
    recommends
        0 <= i <= s.len(),
    decreases s.len() - i,
{
    if i >= s.len() {
        s.len() as int
    } else {
        let k = spec_skip_spaces(s, i);
        if k >= s.len() {
            s.len() as int
        } else if s[k] == NL {
            spec_skip_deeper(s, spec_bump(s.len() as int, i, k + 1), base)
        } else if s[k] == HASH {
            spec_skip_deeper(s, spec_bump(s.len() as int, i, spec_next_line(s, k)), base)
        } else if k - i <= base {
            i
        } else {
            spec_skip_deeper(s, spec_bump(s.len() as int, i, spec_next_line(s, k)), base)
        }
    }
}

fn skip_deeper(s: &[u8], i: usize, base: usize) -> (j: usize)
    requires
        i <= s@.len(),
    ensures
        j == spec_skip_deeper(s@, i as int, base as int),
        j <= s@.len(),
    decreases s@.len() - i,
{
    if i >= s.len() {
        s.len()
    } else {
        let k = skip_spaces(s, i);
        if k >= s.len() {
            s.len()
        } else if byte_at(s, k) == NL {
            skip_deeper(s, bump(s.len(), i, k + 1), base)
        } else if byte_at(s, k) == HASH {
            skip_deeper(s, bump(s.len(), i, next_line(s, k)), base)
        } else if k - i <= base {
            i
        } else {
            skip_deeper(s, bump(s.len(), i, next_line(s, k)), base)
        }
    }
}

/// The top level of a block document: `mode`, `frame_duration` and `frames`
/// fields at one shared indentation, each at most once, unknown keys
/// skipped with everything indented under them.
pub open spec fn spec_top(s: Seq<u8>, i: int, base: Option<int>, acc: DocAccModel) -> Result<
    DifModel,
    ErrorModel,
>
    recommends
        0 <= i <= s.len(),
    decreases s.len() - i,
{
    if i >= s.len() {
        spec_doc_finish(acc)
    } else {
        let k = spec_skip_spaces(s, i);
        if k >= s.len() {
            spec_doc_finish(acc)
        } else if s[k] == NL {
            spec_top(s, spec_bump(s.len() as int, i, k + 1), base, acc)
        } else if s[k] == HASH {
            spec_top(s, spec_bump(s.len() as int, i, spec_next_line(s, k)), base, acc)
        } else {
            let ind = k - i;
            if match base {
                Some(b) => ind != b,
                None => false,
            } {
                Err(ErrorModel { kind: ErrorKind::Syntax, detail: None })
            } else {
                let we = spec_word_end(s, k);
                if we == k {
                    Err(ErrorModel { kind: ErrorKind::Syntax, detail: None })
                } else if we >= s.len() || s[we] != COLON {
                    Err(ErrorModel { kind: ErrorKind::Syntax, detail: None })
                } else {
                    let key = s.subrange(k, we);
                    let v = we + 1;
                    match spec_keyword(key) {
                        Keyword::Mode => if acc.mode is Some {
                            Err(ErrorModel { kind: ErrorKind::DuplicateField, detail: Some(key) })
                        } else if spec_rest_blank(s, v) {
                            match spec_nested_mode(
                                s,
                                spec_bump(s.len() as int, i, spec_next_line(s, v)),
                                ind,
                            ) {
                                Ok((m, nxt)) => spec_top(
                                    s,
                                    spec_bump(s.len() as int, i, nxt),
                                    Some(ind),
                                    DocAccModel { mode: Some(m), ..acc },
                                ),
                                Err(e) => Err(e),
                            }
                        } else {
                            let kk = spec_skip_spaces(s, v);
                            if kk >= s.len() {
                                Err(ErrorModel { kind: ErrorKind::Syntax, detail: None })
                            } else if s[kk] == LBRACE {
                                match spec_mode_flow(s, kk) {
                                    Ok((m, pos)) => if spec_rest_blank(s, pos) {
                                        spec_top(
                                            s,
                                            spec_bump(s.len() as int, i, spec_next_line(s, pos)),
                                            Some(ind),
                                            DocAccModel { mode: Some(m), ..acc },
                                        )
                                    } else {
                                        Err(ErrorModel { kind: ErrorKind::Syntax, detail: None })
                                    },
                                    Err(e) => Err(e),
                                }
                            } else if !is_word_byte(s[kk]) {
                                Err(ErrorModel { kind: ErrorKind::Syntax, detail: None })
                            } else {
                                let mwe = spec_word_end(s, kk);
                                if !spec_rest_blank(s, mwe) {
                                    Err(ErrorModel { kind: ErrorKind::Syntax, detail: None })
                                } else {
                                    match spec_mode_word(s.subrange(kk, mwe)) {
                                        Ok(m) => spec_top(
                                            s,
                                            spec_bump(s.len() as int, i, spec_next_line(s, mwe)),
                                            Some(ind),
                                            DocAccModel { mode: Some(m), ..acc },
                                        ),
                                        Err(e) => Err(e),
                                    }
                                }
                            }
                        },
                        Keyword::FrameDuration => if acc.frame_duration is Some {
                            Err(ErrorModel { kind: ErrorKind::DuplicateField, detail: Some(key) })
                        } else if spec_rest_blank(s, v) {
                            spec_top(
                                s,
                                spec_bump(s.len() as int, i, spec_next_line(s, v)),
                                Some(ind),
                                DocAccModel { frame_duration: Some(None), ..acc },
                            )
                        } else {
                            let kk = spec_skip_spaces(s, v);
                            if kk >= s.len() {
                                Err(ErrorModel { kind: ErrorKind::Syntax, detail: None })
                            } else if s[kk] == TILDE && spec_rest_blank(s, kk + 1) {
                                spec_top(
                                    s,
                                    spec_bump(s.len() as int, i, spec_next_line(s, kk)),
                                    Some(ind),
                                    DocAccModel { frame_duration: Some(None), ..acc },
                                )
                            } else if is_digit(s[kk]) {
                                match spec_parse_uint(s, kk) {
                                    Ok((d, j)) => if spec_rest_blank(s, j) {
                                        spec_top(
                                            s,
                                            spec_bump(s.len() as int, i, spec_next_line(s, j)),
                                            Some(ind),
                                            DocAccModel {
                                                frame_duration: Some(Some(d as u64)),
                                                ..acc
                                            },
                                        )
                                    } else {
                                        Err(ErrorModel { kind: ErrorKind::Syntax, detail: None })
                                    },
                                    Err(e) => Err(e),
                                }
                            } else if is_word_byte(s[kk]) && spec_keyword(
                                s.subrange(kk, spec_word_end(s, kk)),
                            ) == Keyword::NullWord && spec_rest_blank(s, spec_word_end(s, kk)) {
                                spec_top(
                                    s,
                                    spec_bump(s.len() as int, i, spec_next_line(s, kk)),
                                    Some(ind),
                                    DocAccModel { frame_duration: Some(None), ..acc },
                                )
                            } else {
                                Err(ErrorModel { kind: ErrorKind::Syntax, detail: None })
                            }
                        },
                        Keyword::Frames => if acc.frames is Some {
                            Err(ErrorModel { kind: ErrorKind::DuplicateField, detail: Some(key) })
                        } else if spec_rest_blank(s, v) {
                            match spec_seq_rec(
                                s,
                                spec_bump(s.len() as int, i, spec_next_line(s, v)),
                                ind,
                                None,
                                Seq::<RawFrame>::empty(),
                            ) {
                                Ok((fs, nxt)) => spec_top(
                                    s,
                                    spec_bump(s.len() as int, i, nxt),
                                    Some(ind),
                                    DocAccModel { frames: Some(fs), ..acc },
                                ),
                                Err(e) => Err(e),
                            }
                        } else {
                            let kk = spec_skip_spaces(s, v);
                            if kk >= s.len() || s[kk] != LBRACK {
                                Err(ErrorModel { kind: ErrorKind::Syntax, detail: None })
                            } else {
                                match spec_flow(s, kk + 1, Seq::<RawFrame>::empty()) {
                                    Ok((fs, j)) => if spec_rest_blank(s, j) {
                                        spec_top(
                                            s,
                                            spec_bump(s.len() as int, i, spec_next_line(s, j)),
                                            Some(ind),
                                            DocAccModel { frames: Some(fs), ..acc },
                                        )
                                    } else {
                                        Err(ErrorModel { kind: ErrorKind::Syntax, detail: None })
                                    },
                                    Err(e) => Err(e),
                                }
                            }
                        },
                        _ => spec_top(
                            s,
                            spec_bump(
                                s.len() as int,
                                i,
                                spec_skip_deeper(
                                    s,
                                    spec_bump(s.len() as int, i, spec_next_line(s, v)),
                                    ind,
                                ),
                            ),
                            Some(ind),
                            acc,
                        ),
                    }
                }
            }
        }
    }
}

fn top(s: &[u8], i: usize, base: Option<usize>, acc: DocAcc) -> (r: Result<
    AnimationDif,
    AnimationParseError,
>)
    requires
        i <= s@.len(),
    ensures
        lift_dif(r) == spec_top(
            s@,
            i as int,
            match base {
                Some(b) => Some(b as int),
                None => None,
            },
            acc@,
        ),
    decreases s@.len() - i,
{
    if i >= s.len() {
        doc_finish(acc)
    } else {
        let k = skip_spaces(s, i);
        if k >= s.len() {
            doc_finish(acc)
        } else if byte_at(s, k) == NL {
            top(s, bump(s.len(), i, k + 1), base, acc)
        } else if byte_at(s, k) == HASH {
            top(s, bump(s.len(), i, next_line(s, k)), base, acc)
        } else {
            let ind = k - i;
            if match base {
                Some(b) => ind != b,
                None => false,
            } {
                Err(AnimationParseError::new(ErrorKind::Syntax))
            } else {
                let we = word_end(s, k);
                if we == k {
                    Err(AnimationParseError::new(ErrorKind::Syntax))
                } else if we >= s.len() || byte_at(s, we) != COLON {
                    Err(AnimationParseError::new(ErrorKind::Syntax))
                } else {
                    let v = we + 1;
                    match keyword_of(copy_range(s, k, we).as_slice()) {
                        Keyword::Mode => if acc.mode.is_some() {
                            Err(
                                AnimationParseError::with_detail(
                                    ErrorKind::DuplicateField,
                                    copy_range(s, k, we),
                                ),
                            )
                        } else if rest_blank(s, v) {
                            match nested_mode(s, bump(s.len(), i, next_line(s, v)), ind) {
                                Ok((m, nxt)) => top(
                                    s,
                                    bump(s.len(), i, nxt),
                                    Some(ind),
                                    DocAcc { mode: Some(m), ..acc },
                                ),
                                Err(e) => Err(e),
                            }
                        } else {
                            let kk = skip_spaces(s, v);
                            if kk >= s.len() {
                                Err(AnimationParseError::new(ErrorKind::Syntax))
                            } else if byte_at(s, kk) == LBRACE {
                                match mode_flow(s, kk) {
                                    Ok((m, pos)) => if rest_blank(s, pos) {
                                        top(
                                            s,
                                            bump(s.len(), i, next_line(s, pos)),
                                            Some(ind),
                                            DocAcc { mode: Some(m), ..acc },
                                        )
                                    } else {
                                        Err(AnimationParseError::new(ErrorKind::Syntax))
                                    },
                                    Err(e) => Err(e),
                                }
                            } else if !is_word_byte_x(byte_at(s, kk)) {
                                Err(AnimationParseError::new(ErrorKind::Syntax))
                            } else {
                                let mwe = word_end(s, kk);
                                if !rest_blank(s, mwe) {
                                    Err(AnimationParseError::new(ErrorKind::Syntax))
                                } else {
                                    match mode_word(copy_range(s, kk, mwe).as_slice()) {
                                        Ok(m) => top(
                                            s,
                                            bump(s.len(), i, next_line(s, mwe)),
                                            Some(ind),
                                            DocAcc { mode: Some(m), ..acc },
                                        ),
                                        Err(e) => Err(e),
                                    }
                                }
                            }
                        },
                        Keyword::FrameDuration => if acc.frame_duration.is_some() {
                            Err(
                                AnimationParseError::with_detail(
                                    ErrorKind::DuplicateField,
                                    copy_range(s, k, we),
                                ),
                            )
                        } else if rest_blank(s, v) {
                            top(
                                s,
                                bump(s.len(), i, next_line(s, v)),
                                Some(ind),
                                DocAcc { frame_duration: Some(None), ..acc },
                            )
                        } else {
                            let kk = skip_spaces(s, v);
                            if kk >= s.len() {
                                Err(AnimationParseError::new(ErrorKind::Syntax))
                            } else if byte_at(s, kk) == TILDE && rest_blank(s, kk + 1) {
                                top(
                                    s,
                                    bump(s.len(), i, next_line(s, kk)),
                                    Some(ind),
                                    DocAcc { frame_duration: Some(None), ..acc },
                                )
                            } else if is_digit_x(byte_at(s, kk)) {
                                match parse_uint(s, kk) {
                                    Ok((d, j)) => if rest_blank(s, j) {
                                        top(
                                            s,
                                            bump(s.len(), i, next_line(s, j)),
                                            Some(ind),
                                            DocAcc { frame_duration: Some(Some(d)), ..acc },
                                        )
                                    } else {
                                        Err(AnimationParseError::new(ErrorKind::Syntax))
                                    },
                                    Err(e) => Err(e),
                                }
                            } else if is_word_byte_x(byte_at(s, kk)) && matches!(
                                keyword_of(copy_range(s, kk, word_end(s, kk)).as_slice()),
                                Keyword::NullWord
                            ) && rest_blank(s, word_end(s, kk)) {
                                top(
                                    s,
                                    bump(s.len(), i, next_line(s, kk)),
                                    Some(ind),
                                    DocAcc { frame_duration: Some(None), ..acc },
                                )
                            } else {
                                Err(AnimationParseError::new(ErrorKind::Syntax))
                            }
                        },
                        Keyword::Frames => if acc.frames.is_some() {
                            Err(
                                AnimationParseError::with_detail(
                                    ErrorKind::DuplicateField,
                                    copy_range(s, k, we),
                                ),
                            )
                        } else if rest_blank(s, v) {
                            match seq_rec(
                                s,
                                bump(s.len(), i, next_line(s, v)),
                                ind,
                                None,
                                Vec::new(),
                            ) {
                                Ok((fs, nxt)) => top(
                                    s,
                                    bump(s.len(), i, nxt),
                                    Some(ind),
                                    DocAcc { frames: Some(fs), ..acc },
                                ),
                                Err(e) => Err(e),
                            }
                        } else {
                            let kk = skip_spaces(s, v);
                            if kk >= s.len() || byte_at(s, kk) != LBRACK {
                                Err(AnimationParseError::new(ErrorKind::Syntax))
                            } else {
                                match flow(s, kk + 1, Vec::new()) {
                                    Ok((fs, j)) => if rest_blank(s, j) {
                                        top(
                                            s,
                                            bump(s.len(), i, next_line(s, j)),
                                            Some(ind),
                                            DocAcc { frames: Some(fs), ..acc },
                                        )
                                    } else {
                                        Err(AnimationParseError::new(ErrorKind::Syntax))
                                    },
                                    Err(e) => Err(e),
                                }
                            }
                        },
                        _ => {
                            let after = skip_deeper(s, bump(s.len(), i, next_line(s, v)), ind);
                            top(s, bump(s.len(), i, after), Some(ind), acc)
                        },
                    }
                }
            }
        }
    }
}

/// What the whole block-notation adapter yields on a document.
pub open spec fn spec_block_dif(s: Seq<u8>) -> Result<DifModel, ErrorModel> {
    spec_top(
        s,
        0,
        None,
        DocAccModel { mode: None, frame_duration: None, frames: None },
    )
}

/// Parse one block-notation document into the intermediate form.
pub fn parse_block_dif(s: &[u8]) -> (r: Result<AnimationDif, AnimationParseError>)
    ensures
        lift_dif(r) == spec_block_dif(s@),
{
    top(s, 0, None, doc_acc_empty())
}

} // verus!
