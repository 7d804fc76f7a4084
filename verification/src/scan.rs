//! Byte-level scanning shared by both notation adapters: character classes,
//! runs of spaces, digits and word bytes, and decimal literals with an exact
//! overflow rule.
use vstd::prelude::*;

use crate::decode::byte_at;
use crate::error::AnimationParseError;
use crate::error::ErrorKind;
use crate::error::ErrorModel;

verus! {

pub const SP: u8 = 32;

pub const TAB: u8 = 9;

pub const NL: u8 = 10;

pub const CR: u8 = 13;

pub const HASH: u8 = 35;

pub const COLON: u8 = 58;

pub const DASH: u8 = 45;

pub const COMMA: u8 = 44;

pub const SLASH: u8 = 47;

pub const LPAREN: u8 = 40;

pub const RPAREN: u8 = 41;

pub const LBRACK: u8 = 91;

pub const RBRACK: u8 = 93;

pub const LBRACE: u8 = 123;

pub const RBRACE: u8 = 125;

pub const TILDE: u8 = 126;

/// Blank bytes inside a line: the space, and a carriage return so that
/// documents with either line ending read the same.
pub open spec fn is_space(b: u8) -> bool {
    b == SP || b == CR
}

pub open spec fn is_digit(b: u8) -> bool {
    48 <= b <= 57
}

/// Bytes a word (a key or a selector) is made of.
pub open spec fn is_word_byte(b: u8) -> bool {
    (65 <= b <= 90) || (97 <= b <= 122) || b == 95 || (48 <= b <= 57)
}

/// The first position at or after `i` that does not hold a space.
pub open spec fn spec_skip_spaces(s: Seq<u8>, i: int) -> int
    recommends
        0 <= i <= s.len(),
    decreases s.len() - i,
{
    if i < s.len() && is_space(s[i]) {
        spec_skip_spaces(s, i + 1)
    } else {
        i
    }
}

pub fn skip_spaces(s: &[u8], i: usize) -> (j: usize)
    requires
        i <= s@.len(),
    ensures
        j == spec_skip_spaces(s@, i as int),
        i <= j <= s@.len(),
    decreases s@.len() - i,
{
    if i < s.len() && is_space_x(byte_at(s, i)) {
        skip_spaces(s, i + 1)
    } else {
        i
    }
}

fn is_space_x(b: u8) -> (r: bool)
    ensures
        r == is_space(b),
{
    b == SP || b == CR
}

pub(crate) fn is_digit_x(b: u8) -> (r: bool)
    ensures
        r == is_digit(b),
{
    48 <= b && b <= 57
}

pub(crate) fn is_word_byte_x(b: u8) -> (r: bool)
    ensures
        r == is_word_byte(b),
{
    (65 <= b && b <= 90) || (97 <= b && b <= 122) || b == 95 || (48 <= b && b <= 57)
}

/// The end of the run of word bytes that starts at `i`.
pub open spec fn spec_word_end(s: Seq<u8>, i: int) -> int
    recommends
        0 <= i <= s.len(),
    decreases s.len() - i,
{
    if i < s.len() && is_word_byte(s[i]) {
        spec_word_end(s, i + 1)
    } else {
        i
    }
}

pub fn word_end(s: &[u8], i: usize) -> (j: usize)
    requires
        i <= s@.len(),
    ensures
        j == spec_word_end(s@, i as int),
        i <= j <= s@.len(),
    decreases s@.len() - i,
{
    if i < s.len() && is_word_byte_x(byte_at(s, i)) {
        word_end(s, i + 1)
    } else {
        i
    }
}

/// Copy one range of the input, for an error to carry.
pub fn copy_range(s: &[u8], a: usize, b: usize) -> (v: Vec<u8>)
    requires
        a <= b <= s@.len(),
    ensures
        v@ == s@.subrange(a as int, b as int),
    decreases b - a,
{
    if a == b {
        let v: Vec<u8> = Vec::new();
        proof {
            assert(v@ =~= s@.subrange(a as int, b as int));
        }
        v
    } else {
        let mut v = copy_range(s, a, b - 1);
        v.push(byte_at(s, b - 1));
        proof {
            assert(v@ =~= s@.subrange(a as int, b as int));
        }
        v
    }
}

/// The value a byte has as a digit: decimal digits, then the hexadecimal
/// letters in either case; any other byte maps past every base.
pub open spec fn spec_digit_val(b: u8) -> int {
    if 48 <= b <= 57 {
        b - 48
    } else if 97 <= b <= 102 {
        b - 87
    } else if 65 <= b <= 70 {
        b - 55
    } else {
        16
    }
}

fn digit_val(b: u8) -> (d: u8)
    ensures
        d as int == spec_digit_val(b),
{
    if 48 <= b && b <= 57 {
        b - 48
    } else if 97 <= b && b <= 102 {
        b - 87
    } else if 65 <= b && b <= 70 {
        b - 55
    } else {
        16
    }
}

/// Whether a byte is a digit of the given base.
pub open spec fn is_radix_digit(b: u8, base: int) -> bool {
    spec_digit_val(b) < base
}

fn is_radix_digit_x(b: u8, base: u64) -> (r: bool)
    ensures
        r == is_radix_digit(b, base as int),
{
    (digit_val(b) as u64) < base
}

/// The end of the run of digits of the given base that starts at `i`.
pub open spec fn spec_digits_end(s: Seq<u8>, i: int, base: int) -> int
    recommends
        0 <= i <= s.len(),
    decreases s.len() - i,
{
    if i < s.len() && is_radix_digit(s[i], base) {
        spec_digits_end(s, i + 1, base)
    } else {
        i
    }
}

pub fn digits_end(s: &[u8], i: usize, base: u64) -> (j: usize)
    requires
        i <= s@.len(),
    ensures
        j == spec_digits_end(s@, i as int, base as int),
        i <= j <= s@.len(),
    decreases s@.len() - i,
{
    if i < s.len() && is_radix_digit_x(byte_at(s, i), base) {
        digits_end(s, i + 1, base)
    } else {
        i
    }
}

/// Everything between `i` and the end of the digit run is a digit of the
/// base.
pub proof fn lemma_digits_region(s: Seq<u8>, i: int, base: int)
    requires
        0 <= i <= s.len(),
    ensures
        i <= spec_digits_end(s, i, base) <= s.len(),
        forall|j: int|
            i <= j < spec_digits_end(s, i, base) ==> is_radix_digit(#[trigger] s[j], base),
    decreases s.len() - i,
{
    if i < s.len() && is_radix_digit(s[i], base) {
        lemma_digits_region(s, i + 1, base);
    }
}

/// Fold the digits of `s[i..end)` into a value, left to right; `None` when
/// the literal does not fit an unsigned 64-bit count.
pub open spec fn spec_uint_val(s: Seq<u8>, i: int, end: int, base: int, acc: int) -> Option<int>
    recommends
        0 <= i <= end <= s.len(),
        2 <= base <= 16,
        0 <= acc <= u64::MAX,
    decreases end - i,
{
    if i >= end {
        Some(acc)
    } else {
        let d = spec_digit_val(s[i]);
        if acc > (u64::MAX - d) / base {
            None
        } else {
            spec_uint_val(s, i + 1, end, base, acc * base + d)
        }
    }
}

fn uint_val(s: &[u8], i: usize, end: usize, base: u64, acc: u64) -> (r: Option<u64>)
    requires
        i <= end <= s@.len(),
        2 <= base <= 16,
        forall|j: int| i <= j < end ==> is_radix_digit(#[trigger] s@[j], base as int),
    ensures
        match r {
            Some(v) => spec_uint_val(s@, i as int, end as int, base as int, acc as int) == Some(
                v as int,
            ),
            None => spec_uint_val(s@, i as int, end as int, base as int, acc as int) is None,
        },
    decreases end - i,
{
    if i >= end {
        Some(acc)
    } else {
        let d = digit_val(byte_at(s, i));
        if acc > (u64::MAX - d as u64) / base {
            None
        } else {
            proof {
                let di = spec_digit_val(s@[i as int]);
                vstd::arithmetic::div_mod::lemma_fundamental_div_mod(u64::MAX - di, base as int);
                vstd::arithmetic::div_mod::lemma_mod_bound(u64::MAX - di, base as int);
                vstd::arithmetic::mul::lemma_mul_inequality(
                    acc as int,
                    (u64::MAX - di) / (base as int),
                    base as int,
                );
            }
            uint_val(s, i + 1, end, base, acc * base + d as u64)
        }
    }
}

/// Read the integer literal that starts at `i` — decimal, or hexadecimal,
/// octal or binary under a `0x`, `0o` or `0b` prefix: its value and the
/// position past its digits, or the out-of-range error carrying the whole
/// literal.
pub open spec fn spec_parse_uint(s: Seq<u8>, i: int) -> Result<(int, int), ErrorModel>
    recommends
        0 <= i <= s.len(),
{
    let base: int = if i + 2 < s.len() && s[i] == 48 && s[i + 1] == 120 && is_radix_digit(
        s[i + 2],
        16,
    ) {
        16
    } else if i + 2 < s.len() && s[i] == 48 && s[i + 1] == 111 && is_radix_digit(s[i + 2], 8) {
        8
    } else if i + 2 < s.len() && s[i] == 48 && s[i + 1] == 98 && is_radix_digit(s[i + 2], 2) {
        2
    } else {
        10
    };
    let start: int = if base == 10 {
        i
    } else {
        i + 2
    };
    let end = spec_digits_end(s, start, base);
    match spec_uint_val(s, start, end, base, 0) {
        Some(v) => Ok((v, end)),
        None => Err(
            ErrorModel { kind: ErrorKind::IntOutOfRange, detail: Some(s.subrange(i, end)) },
        ),
    }
}

/// Lift an executable literal read to its model.
pub open spec fn lift_uint(r: Result<(u64, usize), AnimationParseError>) -> Result<
    (int, int),
    ErrorModel,
> {
    match r {
        Ok((v, j)) => Ok((v as int, j as int)),
        Err(e) => Err(e@),
    }
}

pub fn parse_uint(s: &[u8], i: usize) -> (r: Result<(u64, usize), AnimationParseError>)
    requires
        i <= s@.len(),
    ensures
        lift_uint(r) == spec_parse_uint(s@, i as int),
        r matches Ok((v, j)) ==> i <= j <= s@.len(),
{
    let base: u64 = if s.len() - i > 2 && byte_at(s, i) == 48 && byte_at(s, i + 1) == 120
        && is_radix_digit_x(byte_at(s, i + 2), 16) {
        16
    } else if s.len() - i > 2 && byte_at(s, i) == 48 && byte_at(s, i + 1) == 111
        && is_radix_digit_x(byte_at(s, i + 2), 8) {
        8
    } else if s.len() - i > 2 && byte_at(s, i) == 48 && byte_at(s, i + 1) == 98
        && is_radix_digit_x(byte_at(s, i + 2), 2) {
        2
    } else {
        10
    };
    let start: usize = if base == 10 {
        i
    } else {
        i + 2
    };
    proof {
        lemma_digits_region(s@, start as int, base as int);
    }
    let end = digits_end(s, start, base);
    match uint_val(s, start, end, base, 0) {
        Some(v) => Ok((v, end)),
        None => Err(
            AnimationParseError::with_detail(ErrorKind::IntOutOfRange, copy_range(s, i, end)),
        ),
    }
}

/// A recursion step of the line-structured parsers: the position always
/// moves forward; a step that would not advance jumps to the end instead,
/// which never happens on the paths the grammar takes but keeps every
/// measure decreasing.
pub open spec fn spec_bump(len: int, i: int, j: int) -> int {
    if j <= i || j > len {
        len
    } else {
        j
    }
}

pub fn bump(len: usize, i: usize, j: usize) -> (r: usize)
    ensures
        r as int == spec_bump(len as int, i as int, j as int),
{
    if j <= i || j > len {
        len
    } else {
        j
    }
}

} // verus!
