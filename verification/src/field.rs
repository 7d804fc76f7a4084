//! The field-notation adapter: one parenthesized record of `key: value`
//! fields separated by commas, optionally preceded by the document's type
//! name, with `//` comments, a bracketed list of frame
//! entries, and optional values written bare, as `None`, or wrapped in an
//! explicit `Some(...)` — a bare number where an optional value is expected
//! counts as present. The grammar below is the notation's definition; both
//! notations yield the same intermediate form.
use vstd::prelude::*;

use crate::block::line_end;
use crate::block::spec_line_end;
use crate::decode::byte_at;
use crate::decode::doc_acc_empty;
use crate::decode::doc_finish;
use crate::decode::frame_acc_empty;
use crate::decode::frame_acc_field;
use crate::decode::frame_acc_finish;
use crate::decode::frame_from_bare;
use crate::decode::keyword_of;
use crate::decode::lift_dif;
use crate::decode::mode_with_arg;
use crate::decode::mode_word;
use crate::decode::spec_doc_finish;
use crate::decode::spec_frame_acc_empty;
use crate::decode::spec_frame_acc_field;
use crate::decode::spec_frame_acc_finish;
use crate::decode::spec_frame_from_bare;
use crate::decode::spec_keyword;
use crate::decode::spec_mode_with_arg;
use crate::decode::spec_mode_word;
use crate::decode::DocAcc;
use crate::decode::DocAccModel;
use crate::decode::FieldValue;
use crate::decode::FrameAcc;
use crate::decode::Keyword;
use crate::dif::AnimationDif;
use crate::dif::DifModel;
use crate::dif::RawFrame;
use crate::error::AnimationParseError;
use crate::error::ErrorKind;
use crate::error::ErrorModel;
use crate::scan::bump;
use crate::scan::copy_range;
use crate::scan::is_digit;
use crate::scan::is_digit_x;
use crate::scan::is_word_byte;
use crate::scan::is_word_byte_x;
use crate::scan::parse_uint;
use crate::scan::spec_bump;
use crate::scan::spec_parse_uint;
use crate::scan::spec_word_end;
use crate::scan::word_end;
use crate::scan::COLON;
use crate::scan::COMMA;
use crate::scan::CR;
use crate::scan::LBRACK;
use crate::scan::LPAREN;
use crate::scan::NL;
use crate::scan::RBRACK;
use crate::scan::RPAREN;
use crate::scan::SLASH;
use crate::scan::SP;
use crate::scan::TAB;

verus! {

/// Bytes that separate tokens of this notation.
pub open spec fn is_ws(b: u8) -> bool {
    b == SP || b == NL || b == CR || b == TAB
}

fn is_ws_x(b: u8) -> (r: bool)
    ensures
        r == is_ws(b),
{
    b == SP || b == NL || b == CR || b == TAB
}

/// The next token's position: past whitespace and `//` comments.
pub open spec fn spec_skip_ws(s: Seq<u8>, i: int) -> int
    recommends
        0 <= i <= s.len(),
    decreases s.len() - i,
{
    if i >= s.len() {
        i
    } else if is_ws(s[i]) {
        spec_skip_ws(s, i + 1)
    } else if s[i] == SLASH && i + 1 < s.len() && s[i + 1] == SLASH {
        spec_skip_ws(s, spec_bump(s.len() as int, i, spec_line_end(s, i)))
    } else {
        i
    }
}

fn skip_ws(s: &[u8], i: usize) -> (j: usize)
    requires
        i <= s@.len(),
    ensures
        j == spec_skip_ws(s@, i as int),
        i <= j <= s@.len(),
    decreases s@.len() - i,
{
    if i >= s.len() {
        i
    } else if is_ws_x(byte_at(s, i)) {
        skip_ws(s, i + 1)
    } else if byte_at(s, i) == SLASH && i + 1 < s.len() && byte_at(s, i + 1) == SLASH {
        skip_ws(s, bump(s.len(), i, line_end(s, i)))
    } else {
        i
    }
}

/// An optional numeric value: a bare literal, `None`, or `Some(literal)`.
pub open spec fn spec_scalar_value(s: Seq<u8>, i: int) -> Result<(FieldValue, int), ErrorModel>
    recommends
        0 <= i <= s.len(),
{
    let k = spec_skip_ws(s, i);
    if k >= s.len() {
        Err(ErrorModel { kind: ErrorKind::Syntax, detail: None })
    } else if is_digit(s[k]) {
        match spec_parse_uint(s, k) {
            Ok((v, j)) => Ok((FieldValue::Num(v as u64), j)),
            Err(e) => Err(e),
        }
    } else if is_word_byte(s[k]) {
        let we = spec_word_end(s, k);
        match spec_keyword(s.subrange(k, we)) {
            Keyword::NoneWord => Ok((FieldValue::Null, we)),
            Keyword::SomeWord => {
                let a = spec_skip_ws(s, we);
                if a >= s.len() || s[a] != LPAREN {
                    Err(ErrorModel { kind: ErrorKind::Syntax, detail: None })
                } else {
                    let b = spec_skip_ws(s, a + 1);
                    if b >= s.len() || !is_digit(s[b]) {
                        Err(ErrorModel { kind: ErrorKind::Syntax, detail: None })
                    } else {
                        match spec_parse_uint(s, b) {
                            Ok((v, j)) => {
                                let c = spec_skip_ws(s, j);
                                if c >= s.len() || s[c] != RPAREN {
                                    Err(ErrorModel { kind: ErrorKind::Syntax, detail: None })
                                } else {
                                    Ok((FieldValue::Num(v as u64), c + 1))
                                }
                            },
                            Err(e) => Err(e),
                        }
                    }
                }
            },
            _ => Err(ErrorModel { kind: ErrorKind::Syntax, detail: None }),
        }
    } else {
        Err(ErrorModel { kind: ErrorKind::Syntax, detail: None })
    }
}

/// Lift an executable value-and-position result to its model.
pub open spec fn lift_val_pos(r: Result<(FieldValue, usize), AnimationParseError>) -> Result<
    (FieldValue, int),
    ErrorModel,
> {
    match r {
        Ok((v, j)) => Ok((v, j as int)),
        Err(e) => Err(e@),
    }
}

fn scalar_value(s: &[u8], i: usize) -> (r: Result<(FieldValue, usize), AnimationParseError>)
    requires
        i <= s@.len(),
    ensures
        lift_val_pos(r) == spec_scalar_value(s@, i as int),
        r matches Ok((_, j)) ==> j <= s@.len(),
{
    let k = skip_ws(s, i);
    if k >= s.len() {
        Err(AnimationParseError::new(ErrorKind::Syntax))
    } else if is_digit_x(byte_at(s, k)) {
        match parse_uint(s, k) {
            Ok((v, j)) => Ok((FieldValue::Num(v), j)),
            Err(e) => Err(e),
        }
    } else if is_word_byte_x(byte_at(s, k)) {
        let we = word_end(s, k);
        match keyword_of(copy_range(s, k, we).as_slice()) {
            Keyword::NoneWord => Ok((FieldValue::Null, we)),
            Keyword::SomeWord => {
                let a = skip_ws(s, we);
                if a >= s.len() || byte_at(s, a) != LPAREN {
                    Err(AnimationParseError::new(ErrorKind::Syntax))
                } else {
                    let b = skip_ws(s, a + 1);
                    if b >= s.len() || !is_digit_x(byte_at(s, b)) {
                        Err(AnimationParseError::new(ErrorKind::Syntax))
                    } else {
                        match parse_uint(s, b) {
                            Ok((v, j)) => {
                                let c = skip_ws(s, j);
                                if c >= s.len() || byte_at(s, c) != RPAREN {
                                    Err(AnimationParseError::new(ErrorKind::Syntax))
                                } else {
                                    Ok((FieldValue::Num(v), c + 1))
                                }
                            },
                            Err(e) => Err(e),
                        }
                    }
                }
            },
            _ => Err(AnimationParseError::new(ErrorKind::Syntax)),
        }
    } else {
        Err(AnimationParseError::new(ErrorKind::Syntax))
    }
}

/// The fields of one structured frame entry, up to and including its
/// closing parenthesis.
pub open spec fn spec_ffields(s: Seq<u8>, i: int, acc: FrameAcc) -> Result<
    (FrameAcc, int),
    ErrorModel,
>
    recommends
        0 <= i <= s.len(),
    decreases s.len() - i,
{
    if i >= s.len() {
        Err(ErrorModel { kind: ErrorKind::Syntax, detail: None })
    } else {
        let k = spec_skip_ws(s, i);
        if k >= s.len() {
            Err(ErrorModel { kind: ErrorKind::Syntax, detail: None })
        } else if s[k] == RPAREN {
            Ok((acc, k + 1))
        } else if !is_word_byte(s[k]) || is_digit(s[k]) {
            Err(ErrorModel { kind: ErrorKind::Syntax, detail: None })
        } else {
            let we = spec_word_end(s, k);
            let key = s.subrange(k, we);
            let c = spec_skip_ws(s, we);
            if c >= s.len() || s[c] != COLON {
                Err(ErrorModel { kind: ErrorKind::Syntax, detail: None })
            } else {
                match spec_scalar_value(s, c + 1) {
                    Ok((val, pos)) => match spec_frame_acc_field(acc, key, val) {
                        Ok(a2) => {
                            let k2 = spec_skip_ws(s, pos);
                            if k2 >= s.len() {
                                Err(ErrorModel { kind: ErrorKind::Syntax, detail: None })
                            } else if s[k2] == COMMA {
                                spec_ffields(s, spec_bump(s.len() as int, i, k2 + 1), a2)
                            } else if s[k2] == RPAREN {
                                Ok((a2, k2 + 1))
                            } else {
                                Err(ErrorModel { kind: ErrorKind::Syntax, detail: None })
                            }
                        },
                        Err(e) => Err(e),
                    },
                    Err(e) => Err(e),
                }
            }
        }
    }
}

/// Lift an executable accumulator-and-position result to its model.
pub open spec fn lift_facc_pos(r: Result<(FrameAcc, usize), AnimationParseError>) -> Result<
    (FrameAcc, int),
    ErrorModel,
> {
    match r {
        Ok((a, j)) => Ok((a, j as int)),
        Err(e) => Err(e@),
    }
}

fn ffields(s: &[u8], i: usize, acc: FrameAcc) -> (r: Result<(FrameAcc, usize), AnimationParseError>)
    requires
        i <= s@.len(),
    ensures
        lift_facc_pos(r) == spec_ffields(s@, i as int, acc),
        r matches Ok((_, j)) ==> j <= s@.len(),
    decreases s@.len() - i,
{
    if i >= s.len() {
        Err(AnimationParseError::new(ErrorKind::Syntax))
    } else {
        let k = skip_ws(s, i);
        if k >= s.len() {
            Err(AnimationParseError::new(ErrorKind::Syntax))
        } else if byte_at(s, k) == RPAREN {
            Ok((acc, k + 1))
        } else if !is_word_byte_x(byte_at(s, k)) || is_digit_x(byte_at(s, k)) {
            Err(AnimationParseError::new(ErrorKind::Syntax))
        } else {
            let we = word_end(s, k);
            let c = skip_ws(s, we);
            if c >= s.len() || byte_at(s, c) != COLON {
                Err(AnimationParseError::new(ErrorKind::Syntax))
            } else {
                match scalar_value(s, c + 1) {
                    Ok((val, pos)) => match frame_acc_field(
                        acc,
                        copy_range(s, k, we).as_slice(),
                        val,
                    ) {
                        Ok(a2) => {
                            let k2 = skip_ws(s, pos);
                            if k2 >= s.len() {
                                Err(AnimationParseError::new(ErrorKind::Syntax))
                            } else if byte_at(s, k2) == COMMA {
                                ffields(s, bump(s.len(), i, k2 + 1), a2)
                            } else if byte_at(s, k2) == RPAREN {
                                Ok((a2, k2 + 1))
                            } else {
                                Err(AnimationParseError::new(ErrorKind::Syntax))
                            }
                        },
                        Err(e) => Err(e),
                    },
                    Err(e) => Err(e),
                }
            }
        }
    }
}

/// The frame entries of the bracketed list, up to and including its closing
/// bracket: bare indices or parenthesized records, separated by commas, a
/// trailing comma allowed.
pub open spec fn spec_entries(s: Seq<u8>, i: int, fs: Seq<RawFrame>) -> Result<
    (Seq<RawFrame>, int),
    ErrorModel,
>
    recommends
        0 <= i <= s.len(),
    decreases s.len() - i,
{
    if i >= s.len() {
        Err(ErrorModel { kind: ErrorKind::Syntax, detail: None })
    } else {
        let k = spec_skip_ws(s, i);
        if k >= s.len() {
            Err(ErrorModel { kind: ErrorKind::Syntax, detail: None })
        } else if s[k] == RBRACK {
            Ok((fs, k + 1))
        } else {
            let ent: Result<(RawFrame, int), ErrorModel> = if is_digit(s[k]) {
                match spec_parse_uint(s, k) {
                    Ok((v, j)) => match spec_frame_from_bare(v, s.subrange(k, j)) {
                        Ok(f) => Ok((f, j)),
                        Err(e) => Err(e),
                    },
                    Err(e) => Err(e),
                }
            } else if s[k] == LPAREN {
                match spec_ffields(s, k + 1, spec_frame_acc_empty()) {
                    Ok((a, j)) => match spec_frame_acc_finish(a) {
                        Ok(f) => Ok((f, j)),
                        Err(e) => Err(e),
                    },
                    Err(e) => Err(e),
                }
            } else {
                Err(ErrorModel { kind: ErrorKind::BadFrameEntry, detail: None })
            };
            match ent {
                Ok((f, pos)) => {
                    let k2 = spec_skip_ws(s, pos);
                    if k2 >= s.len() {
                        Err(ErrorModel { kind: ErrorKind::Syntax, detail: None })
                    } else if s[k2] == COMMA {
                        spec_entries(s, spec_bump(s.len() as int, i, k2 + 1), fs.push(f))
                    } else if s[k2] == RBRACK {
                        Ok((fs.push(f), k2 + 1))
                    } else {
                        Err(ErrorModel { kind: ErrorKind::Syntax, detail: None })
                    }
                },
                Err(e) => Err(e),
            }
        }
    }
}

/// Lift an executable frames-and-position result to its model.
pub open spec fn lift_entries(r: Result<(Vec<RawFrame>, usize), AnimationParseError>) -> Result<
    (Seq<RawFrame>, int),
    ErrorModel,
> {
    match r {
        Ok((v, j)) => Ok((v@, j as int)),
        Err(e) => Err(e@),
    }
}

fn entries(s: &[u8], i: usize, fs: Vec<RawFrame>) -> (r: Result<
    (Vec<RawFrame>, usize),
    AnimationParseError,
>)
    requires
        i <= s@.len(),
    ensures
        lift_entries(r) == spec_entries(s@, i as int, fs@),
        r matches Ok((_, j)) ==> j <= s@.len(),
    decreases s@.len() - i,
{
    if i >= s.len() {
        Err(AnimationParseError::new(ErrorKind::Syntax))
    } else {
        let k = skip_ws(s, i);
        if k >= s.len() {
            Err(AnimationParseError::new(ErrorKind::Syntax))
        } else if byte_at(s, k) == RBRACK {
            Ok((fs, k + 1))
        } else {
            let ent: Result<(RawFrame, usize), AnimationParseError> = if is_digit_x(
                byte_at(s, k),
            ) {
                match parse_uint(s, k) {
                    Ok((v, j)) => match frame_from_bare(v, copy_range(s, k, j)) {
                        Ok(f) => Ok((f, j)),
                        Err(e) => Err(e),
                    },
                    Err(e) => Err(e),
                }
            } else if byte_at(s, k) == LPAREN {
                match ffields(s, k + 1, frame_acc_empty()) {
                    Ok((a, j)) => match frame_acc_finish(a) {
                        Ok(f) => Ok((f, j)),
                        Err(e) => Err(e),
                    },
                    Err(e) => Err(e),
                }
            } else {
                Err(AnimationParseError::new(ErrorKind::BadFrameEntry))
            };
            match ent {
                Ok((f, pos)) => {
                    let k2 = skip_ws(s, pos);
                    if k2 >= s.len() {
                        Err(AnimationParseError::new(ErrorKind::Syntax))
                    } else if byte_at(s, k2) == COMMA {
                        let mut fs2 = fs;
                        fs2.push(f);
                        entries(s, bump(s.len(), i, k2 + 1), fs2)
                    } else if byte_at(s, k2) == RBRACK {
                        let mut fs2 = fs;
                        fs2.push(f);
                        Ok((fs2, k2 + 1))
                    } else {
                        Err(AnimationParseError::new(ErrorKind::Syntax))
                    }
                },
                Err(e) => Err(e),
            }
        }
    }
}

/// Skip the value of an unknown key: any tokens up to the comma or closing
/// delimiter of the enclosing record, nesting respected. The result is the
/// position of that separator.
pub open spec fn spec_skip_value(s: Seq<u8>, i: int, depth: int) -> int
    recommends
        0 <= i <= s.len(),
        depth >= 0,
    decreases s.len() - i,
{
    if i >= s.len() {
        s.len() as int
    } else {
        let k = spec_skip_ws(s, i);
        if k >= s.len() {
            s.len() as int
        } else if s[k] == LPAREN || s[k] == LBRACK {
            spec_skip_value(s, spec_bump(s.len() as int, i, k + 1), depth + 1)
        } else if s[k] == RPAREN || s[k] == RBRACK {
            if depth == 0 {
                k
            } else {
                spec_skip_value(s, spec_bump(s.len() as int, i, k + 1), depth - 1)
            }
        } else if s[k] == COMMA {
            if depth == 0 {
                k
            } else {
                spec_skip_value(s, spec_bump(s.len() as int, i, k + 1), depth)
            }
        } else {
            spec_skip_value(s, spec_bump(s.len() as int, i, k + 1), depth)
        }
    }
}

fn skip_value(s: &[u8], i: usize, depth: usize) -> (j: usize)
    requires
        i <= s@.len(),
        depth <= i,
    ensures
        j == spec_skip_value(s@, i as int, depth as int),
        j <= s@.len(),
    decreases s@.len() - i,
{
    if i >= s.len() {
        s.len()
    } else {
        let k = skip_ws(s, i);
        if k >= s.len() {
            s.len()
        } else if byte_at(s, k) == LPAREN || byte_at(s, k) == LBRACK {
            skip_value(s, bump(s.len(), i, k + 1), depth + 1)
        } else if byte_at(s, k) == RPAREN || byte_at(s, k) == RBRACK {
            if depth == 0 {
                k
            } else {
                skip_value(s, bump(s.len(), i, k + 1), depth - 1)
            }
        } else if byte_at(s, k) == COMMA {
            if depth == 0 {
                k
            } else {
                skip_value(s, bump(s.len(), i, k + 1), depth)
            }
        } else {
            skip_value(s, bump(s.len(), i, k + 1), depth)
        }
    }
}

/// The fields of the document record, up to and including its closing
/// parenthesis: `mode`, `frame_duration` and `frames`, each at most once,
/// unknown keys skipped with their values.
pub open spec fn spec_fields(s: Seq<u8>, i: int, acc: DocAccModel) -> Result<
    (DocAccModel, int),
    ErrorModel,
>
    recommends
        0 <= i <= s.len(),
    decreases s.len() - i,
{
    if i >= s.len() {
        Err(ErrorModel { kind: ErrorKind::Syntax, detail: None })
    } else {
        let k = spec_skip_ws(s, i);
        if k >= s.len() {
            Err(ErrorModel { kind: ErrorKind::Syntax, detail: None })
        } else if s[k] == RPAREN {
            Ok((acc, k + 1))
        } else if !is_word_byte(s[k]) || is_digit(s[k]) {
            Err(ErrorModel { kind: ErrorKind::Syntax, detail: None })
        } else {
            let we = spec_word_end(s, k);
            let key = s.subrange(k, we);
            let c = spec_skip_ws(s, we);
            if c >= s.len() || s[c] != COLON {
                Err(ErrorModel { kind: ErrorKind::Syntax, detail: None })
            } else {
                let v = c + 1;
                let step: Result<(DocAccModel, int), ErrorModel> = match spec_keyword(key) {
                    Keyword::Mode => if acc.mode is Some {
                        Err(ErrorModel { kind: ErrorKind::DuplicateField, detail: Some(key) })
                    } else {
                        let mv = spec_skip_ws(s, v);
                        if mv >= s.len() || !is_word_byte(s[mv]) || is_digit(s[mv]) {
                            Err(ErrorModel { kind: ErrorKind::Syntax, detail: None })
                        } else {
                            let mwe = spec_word_end(s, mv);
                            let w = s.subrange(mv, mwe);
                            let a = spec_skip_ws(s, mwe);
                            if a < s.len() && s[a] == LPAREN {
                                let b = spec_skip_ws(s, a + 1);
                                if b >= s.len() || !is_digit(s[b]) {
                                    Err(ErrorModel { kind: ErrorKind::Syntax, detail: None })
                                } else {
                                    match spec_parse_uint(s, b) {
                                        Ok((kv, j)) => {
                                            let cc = spec_skip_ws(s, j);
                                            if cc >= s.len() || s[cc] != RPAREN {
                                                Err(
                                                    ErrorModel {
                                                        kind: ErrorKind::Syntax,
                                                        detail: None,
                                                    },
                                                )
                                            } else {
                                                match spec_mode_with_arg(w, kv) {
                                                    Ok(m) => Ok(
                                                        (
                                                            DocAccModel { mode: Some(m), ..acc },
                                                            cc + 1,
                                                        ),
                                                    ),
                                                    Err(e) => Err(e),
                                                }
                                            }
                                        },
                                        Err(e) => Err(e),
                                    }
                                }
                            } else {
                                match spec_mode_word(w) {
                                    Ok(m) => Ok((DocAccModel { mode: Some(m), ..acc }, mwe)),
                                    Err(e) => Err(e),
                                }
                            }
                        }
                    },
                    Keyword::FrameDuration => if acc.frame_duration is Some {
                        Err(ErrorModel { kind: ErrorKind::DuplicateField, detail: Some(key) })
                    } else {
                        match spec_scalar_value(s, v) {
                            Ok((val, j)) => match val {
                                FieldValue::Num(d) => Ok(
                                    (DocAccModel { frame_duration: Some(Some(d)), ..acc }, j),
                                ),
                                FieldValue::Null => Ok(
                                    (DocAccModel { frame_duration: Some(None), ..acc }, j),
                                ),
                            },
                            Err(e) => Err(e),
                        }
                    },
                    Keyword::Frames => if acc.frames is Some {
                        Err(ErrorModel { kind: ErrorKind::DuplicateField, detail: Some(key) })
                    } else {
                        let fv = spec_skip_ws(s, v);
                        if fv >= s.len() || s[fv] != LBRACK {
                            Err(ErrorModel { kind: ErrorKind::Syntax, detail: None })
                        } else {
                            match spec_entries(s, fv + 1, Seq::<RawFrame>::empty()) {
                                Ok((fs, j)) => Ok((DocAccModel { frames: Some(fs), ..acc }, j)),
                                Err(e) => Err(e),
                            }
                        }
                    },
                    _ => Ok((acc, spec_skip_value(s, v, 0))),
                };
                match step {
                    Ok((a2, pos)) => {
                        let k2 = spec_skip_ws(s, pos);
                        if k2 >= s.len() {
                            Err(ErrorModel { kind: ErrorKind::Syntax, detail: None })
                        } else if s[k2] == COMMA {
                            spec_fields(s, spec_bump(s.len() as int, i, k2 + 1), a2)
                        } else if s[k2] == RPAREN {
                            Ok((a2, k2 + 1))
                        } else {
                            Err(ErrorModel { kind: ErrorKind::Syntax, detail: None })
                        }
                    },
                    Err(e) => Err(e),
                }
            }
        }
    }
}

/// Lift an executable document-accumulator result to its model.
pub open spec fn lift_doc_pos(r: Result<(DocAcc, usize), AnimationParseError>) -> Result<
    (DocAccModel, int),
    ErrorModel,
> {
    match r {
        Ok((a, j)) => Ok((a@, j as int)),
        Err(e) => Err(e@),
    }
}

#[verifier::rlimit(80)]
fn fields(s: &[u8], i: usize, acc: DocAcc) -> (r: Result<(DocAcc, usize), AnimationParseError>)
    requires
        i <= s@.len(),
    ensures
        lift_doc_pos(r) == spec_fields(s@, i as int, acc@),
        r matches Ok((_, j)) ==> j <= s@.len(),
    decreases s@.len() - i,
{
    if i >= s.len() {
        Err(AnimationParseError::new(ErrorKind::Syntax))
    } else {
        let k = skip_ws(s, i);
        if k >= s.len() {
            Err(AnimationParseError::new(ErrorKind::Syntax))
        } else if byte_at(s, k) == RPAREN {
            Ok((acc, k + 1))
        } else if !is_word_byte_x(byte_at(s, k)) || is_digit_x(byte_at(s, k)) {
            Err(AnimationParseError::new(ErrorKind::Syntax))
        } else {
            let we = word_end(s, k);
            let c = skip_ws(s, we);
            if c >= s.len() || byte_at(s, c) != COLON {
                Err(AnimationParseError::new(ErrorKind::Syntax))
            } else {
                let v = c + 1;
                let step: Result<(DocAcc, usize), AnimationParseError> = match keyword_of(
                    copy_range(s, k, we).as_slice(),
                ) {
                    Keyword::Mode => if acc.mode.is_some() {
                        Err(
                            AnimationParseError::with_detail(
                                ErrorKind::DuplicateField,
                                copy_range(s, k, we),
                            ),
                        )
                    } else {
                        let mv = skip_ws(s, v);
                        if mv >= s.len() || !is_word_byte_x(byte_at(s, mv)) || is_digit_x(
                            byte_at(s, mv),
                        ) {
                            Err(AnimationParseError::new(ErrorKind::Syntax))
                        } else {
                            let mwe = word_end(s, mv);
                            let a = skip_ws(s, mwe);
                            if a < s.len() && byte_at(s, a) == LPAREN {
                                let b = skip_ws(s, a + 1);
                                if b >= s.len() || !is_digit_x(byte_at(s, b)) {
                                    Err(AnimationParseError::new(ErrorKind::Syntax))
                                } else {
                                    match parse_uint(s, b) {
                                        Ok((kv, j)) => {
                                            let cc = skip_ws(s, j);
                                            if cc >= s.len() || byte_at(s, cc) != RPAREN {
                                                Err(AnimationParseError::new(ErrorKind::Syntax))
                                            } else {
                                                match mode_with_arg(
                                                    copy_range(s, mv, mwe).as_slice(),
                                                    kv,
                                                ) {
                                                    Ok(m) => Ok(
                                                        (DocAcc { mode: Some(m), ..acc }, cc + 1),
                                                    ),
                                                    Err(e) => Err(e),
                                                }
                                            }
                                        },
                                        Err(e) => Err(e),
                                    }
                                }
                            } else {
                                match mode_word(copy_range(s, mv, mwe).as_slice()) {
                                    Ok(m) => Ok((DocAcc { mode: Some(m), ..acc }, mwe)),
                                    Err(e) => Err(e),
                                }
                            }
                        }
                    },
                    Keyword::FrameDuration => if acc.frame_duration.is_some() {
                        Err(
                            AnimationParseError::with_detail(
                                ErrorKind::DuplicateField,
                                copy_range(s, k, we),
                            ),
                        )
                    } else {
                        match scalar_value(s, v) {
                            Ok((val, j)) => match val {
                                FieldValue::Num(d) => Ok(
                                    (DocAcc { frame_duration: Some(Some(d)), ..acc }, j),
                                ),
                                FieldValue::Null => Ok(
                                    (DocAcc { frame_duration: Some(None), ..acc }, j),
                                ),
                            },
                            Err(e) => Err(e),
                        }
                    },
                    Keyword::Frames => if acc.frames.is_some() {
                        Err(
                            AnimationParseError::with_detail(
                                ErrorKind::DuplicateField,
                                copy_range(s, k, we),
                            ),
                        )
                    } else {
                        let fv = skip_ws(s, v);
                        if fv >= s.len() || byte_at(s, fv) != LBRACK {
                            Err(AnimationParseError::new(ErrorKind::Syntax))
                        } else {
                            match entries(s, fv + 1, Vec::new()) {
                                Ok((fs, j)) => Ok((DocAcc { frames: Some(fs), ..acc }, j)),
                                Err(e) => Err(e),
                            }
                        }
                    },
                    _ => Ok((acc, skip_value(s, v, 0))),
                };
                match step {
                    Ok((a2, pos)) => {
                        let k2 = skip_ws(s, pos);
                        if k2 >= s.len() {
                            Err(AnimationParseError::new(ErrorKind::Syntax))
                        } else if byte_at(s, k2) == COMMA {
                            fields(s, bump(s.len(), i, k2 + 1), a2)
                        } else if byte_at(s, k2) == RPAREN {
                            Ok((a2, k2 + 1))
                        } else {
                            Err(AnimationParseError::new(ErrorKind::Syntax))
                        }
                    },
                    Err(e) => Err(e),
                }
            }
        }
    }
}

/// What the whole field-notation adapter yields on a document: an optional
/// leading name word, then the parenthesized record.
pub open spec fn spec_field_dif(s: Seq<u8>) -> Result<DifModel, ErrorModel> {
    let k0 = spec_skip_ws(s, 0);
    let k = if k0 < s.len() && is_word_byte(s[k0]) && !is_digit(s[k0]) {
        spec_skip_ws(s, spec_word_end(s, k0))
    } else {
        k0
    };
    if k >= s.len() || s[k] != LPAREN {
        Err(ErrorModel { kind: ErrorKind::Syntax, detail: None })
    } else {
        match spec_fields(
            s,
            k + 1,
            DocAccModel { mode: None, frame_duration: None, frames: None },
        ) {
            Ok((acc, j)) => {
                let e = spec_skip_ws(s, j);
                if e >= s.len() {
                    spec_doc_finish(acc)
                } else {
                    Err(ErrorModel { kind: ErrorKind::Syntax, detail: None })
                }
            },
            Err(e) => Err(e),
        }
    }
}

/// Parse one field-notation document into the intermediate form.
pub fn parse_field_dif(s: &[u8]) -> (r: Result<AnimationDif, AnimationParseError>)
    ensures
        lift_dif(r) == spec_field_dif(s@),
{
    let k0 = skip_ws(s, 0);
    let k = if k0 < s.len() && is_word_byte_x(byte_at(s, k0)) && !is_digit_x(byte_at(s, k0)) {
        skip_ws(s, word_end(s, k0))
    } else {
        k0
    };
    if k >= s.len() || byte_at(s, k) != LPAREN {
        Err(AnimationParseError::new(ErrorKind::Syntax))
    } else {
        match fields(s, k + 1, doc_acc_empty()) {
            Ok((acc, j)) => {
                let e = skip_ws(s, j);
                if e >= s.len() {
                    doc_finish(acc)
                } else {
                    Err(AnimationParseError::new(ErrorKind::Syntax))
                }
            },
            Err(e) => Err(e),
        }
    }
}

} // verus!
