//! Primitive reads from a byte stream: fixed-width little-endian unsigned
//! integers, the "optimized" variable-length encoding, and length-prefixed
//! UTF-8 strings.
//!
//! Every read is expressed twice: a spec function over `Seq<u8>` that says
//! exactly which value a read at a given position yields and where the next
//! read starts (or which error it raises), and an executable function proved
//! to return exactly the spec function's answer.

use vstd::prelude::*;
use vstd::utf8::{decode_utf8, valid_utf8};

use crate::error::{DecodeError, Field};

verus! {

/// The width of a fixed-size integer encoding.  The optimized encoding is
/// only defined for widths above one byte, so a width-8 optimized read is
/// unrepresentable rather than checked at run time.
#[derive(Clone, Copy, Debug, PartialEq, Eq, Structural)]
pub enum NumWidth {
    W16,
    W32,
    W64,
}

/// The little-endian 16-bit value whose bytes start at `i` in `s`.
pub open spec fn le_u16(s: Seq<u8>, i: int) -> u16
    recommends
        0 <= i,
        i + 2 <= s.len(),
{
    (s[i] + 256 * s[i + 1]) as u16
}

/// The little-endian 32-bit value whose bytes start at `i` in `s`.
pub open spec fn le_u32(s: Seq<u8>, i: int) -> u32
    recommends
        0 <= i,
        i + 4 <= s.len(),
{
    (s[i] + 256 * s[i + 1] + 65536 * s[i + 2] + 16777216 * s[i + 3]) as u32
}

/// The little-endian 64-bit value whose bytes start at `i` in `s`.
pub open spec fn le_u64(s: Seq<u8>, i: int) -> u64
    recommends
        0 <= i,
        i + 8 <= s.len(),
{
    (s[i] + 256 * s[i + 1] + 65536 * s[i + 2] + 16777216 * s[i + 3] + 4294967296 * s[i + 4]
        + 1099511627776 * s[i + 5] + 281474976710656 * s[i + 6] + 72057594037927936 * s[i
        + 7]) as u64
}

/// What reading one byte at `pos` yields: the byte and the next position,
/// or end-of-input attributed to field `f`.
pub open spec fn spec_read_u8(s: Seq<u8>, pos: int, f: Field) -> Result<(u8, int), DecodeError> {
    if pos + 1 <= s.len() {
        Ok((s[pos], pos + 1))
    } else {
        Err(DecodeError::EndOfInput(f))
    }
}

/// What reading a fixed 16-bit little-endian integer at `pos` yields.
pub open spec fn spec_read_u16(s: Seq<u8>, pos: int, f: Field) -> Result<(u16, int), DecodeError> {
    if pos + 2 <= s.len() {
        Ok((le_u16(s, pos), pos + 2))
    } else {
        Err(DecodeError::EndOfInput(f))
    }
}

/// What reading a fixed 32-bit little-endian integer at `pos` yields.
pub open spec fn spec_read_u32(s: Seq<u8>, pos: int, f: Field) -> Result<(u32, int), DecodeError> {
    if pos + 4 <= s.len() {
        Ok((le_u32(s, pos), pos + 4))
    } else {
        Err(DecodeError::EndOfInput(f))
    }
}

/// Read one byte, consuming exactly one byte of the stream.
pub fn read_u8(data: &[u8], pos: usize, f: Field) -> (r: Result<(u8, usize), DecodeError>)
    ensures
        (match r {
            Ok((v, p)) => spec_read_u8(data@, pos as int, f) == Ok::<(u8, int), DecodeError>(
                (v, p as int),
            ),
            Err(e) => spec_read_u8(data@, pos as int, f) == Err::<(u8, int), DecodeError>(e),
        }),
{
    if pos < data.len() {
        Ok((data[pos], pos + 1))
    } else {
        Err(DecodeError::EndOfInput(f))
    }
}

/// Read a fixed 16-bit little-endian integer, consuming exactly two bytes.
pub fn read_u16(data: &[u8], pos: usize, f: Field) -> (r: Result<(u16, usize), DecodeError>)
    ensures
        (match r {
            Ok((v, p)) => spec_read_u16(data@, pos as int, f) == Ok::<(u16, int), DecodeError>(
                (v, p as int),
            ),
            Err(e) => spec_read_u16(data@, pos as int, f) == Err::<(u16, int), DecodeError>(e),
        }),
{
    if data.len() >= 2 && pos <= data.len() - 2 {
        let v: u16 = (data[pos] as u16) + 256 * (data[pos + 1] as u16);
        Ok((v, pos + 2))
    } else {
        Err(DecodeError::EndOfInput(f))
    }
}

/// Read a fixed 32-bit little-endian integer, consuming exactly four bytes.
pub fn read_u32(data: &[u8], pos: usize, f: Field) -> (r: Result<(u32, usize), DecodeError>)
    ensures
        (match r {
            Ok((v, p)) => spec_read_u32(data@, pos as int, f) == Ok::<(u32, int), DecodeError>(
                (v, p as int),
            ),
            Err(e) => spec_read_u32(data@, pos as int, f) == Err::<(u32, int), DecodeError>(e),
        }),
{
    if data.len() >= 4 && pos <= data.len() - 4 {
        let v: u32 = (data[pos] as u32) + 256 * (data[pos + 1] as u32) + 65536 * (data[pos + 2]
            as u32) + 16777216 * (data[pos + 3] as u32);
        Ok((v, pos + 4))
    } else {
        Err(DecodeError::EndOfInput(f))
    }
}

/// What reading a fixed 64-bit little-endian integer at `pos` yields.
pub open spec fn spec_read_u64(s: Seq<u8>, pos: int, f: Field) -> Result<(u64, int), DecodeError> {
    if pos + 8 <= s.len() {
        Ok((le_u64(s, pos), pos + 8))
    } else {
        Err(DecodeError::EndOfInput(f))
    }
}

/// Read a fixed 64-bit little-endian integer, consuming exactly eight bytes.
pub fn read_u64(data: &[u8], pos: usize, f: Field) -> (r: Result<(u64, usize), DecodeError>)
    ensures
        (match r {
            Ok((v, p)) => spec_read_u64(data@, pos as int, f) == Ok::<(u64, int), DecodeError>(
                (v, p as int),
            ),
            Err(e) => spec_read_u64(data@, pos as int, f) == Err::<(u64, int), DecodeError>(e),
        }),
{
    if data.len() >= 8 && pos <= data.len() - 8 {
        let v: u64 = (data[pos] as u64) + 256 * (data[pos + 1] as u64) + 65536 * (data[pos + 2]
            as u64) + 16777216 * (data[pos + 3] as u64) + 4294967296 * (data[pos + 4] as u64)
            + 1099511627776 * (data[pos + 5] as u64) + 281474976710656 * (data[pos + 6] as u64)
            + 72057594037927936 * (data[pos + 7] as u64);
        Ok((v, pos + 8))
    } else {
        Err(DecodeError::EndOfInput(f))
    }
}

/// What reading a fixed integer of width `w` at `pos` yields, widened to 64
/// bits.
#[verifier::opaque]
pub open spec fn spec_read_fixed(w: NumWidth, s: Seq<u8>, pos: int, f: Field) -> Result<
    (u64, int),
    DecodeError,
> {
    match w {
        NumWidth::W16 => match spec_read_u16(s, pos, f) {
            Ok((v, p)) => Ok((v as u64, p)),
            Err(e) => Err(e),
        },
        NumWidth::W32 => match spec_read_u32(s, pos, f) {
            Ok((v, p)) => Ok((v as u64, p)),
            Err(e) => Err(e),
        },
        NumWidth::W64 => spec_read_u64(s, pos, f),
    }
}

/// Read a fixed little-endian integer of width `w`, widened to 64 bits.
pub fn read_fixed(w: NumWidth, data: &[u8], pos: usize, f: Field) -> (r: Result<
    (u64, usize),
    DecodeError,
>)
    ensures
        (match r {
            Ok((v, p)) => spec_read_fixed(w, data@, pos as int, f) == Ok::<
                (u64, int),
                DecodeError,
            >((v, p as int)),
            Err(e) => spec_read_fixed(w, data@, pos as int, f) == Err::<(u64, int), DecodeError>(
                e,
            ),
        }),
{
    proof {
        reveal(spec_read_fixed);
    }
    match w {
        NumWidth::W16 => match read_u16(data, pos, f) {
            Ok((v, p)) => Ok((v as u64, p)),
            Err(e) => Err(e),
        },
        NumWidth::W32 => match read_u32(data, pos, f) {
            Ok((v, p)) => Ok((v as u64, p)),
            Err(e) => Err(e),
        },
        NumWidth::W64 => read_u64(data, pos, f),
    }
}

/// What reading an optimized integer of width `w` at `pos` yields: a first
/// byte below 255 is the value itself; the sentinel byte 255 escapes to the
/// full fixed-width value.
#[verifier::opaque]
pub open spec fn spec_read_optimized(w: NumWidth, s: Seq<u8>, pos: int, f: Field) -> Result<
    (u64, int),
    DecodeError,
> {
    match spec_read_u8(s, pos, f) {
        Ok((first, p1)) => if first < 255 {
            Ok((first as u64, p1))
        } else {
            spec_read_fixed(w, s, p1, f)
        },
        Err(e) => Err(e),
    }
}

/// Read an optimized integer of width `w`: one byte below 255 is the value;
/// the sentinel byte 255 is followed by the full fixed-width value.
pub fn read_optimized(w: NumWidth, data: &[u8], pos: usize, f: Field) -> (r: Result<
    (u64, usize),
    DecodeError,
>)
    ensures
        (match r {
            Ok((v, p)) => spec_read_optimized(w, data@, pos as int, f) == Ok::<
                (u64, int),
                DecodeError,
            >((v, p as int)),
            Err(e) => spec_read_optimized(w, data@, pos as int, f) == Err::<
                (u64, int),
                DecodeError,
            >(e),
        }),
{
    proof {
        reveal(spec_read_optimized);
    }
    match read_u8(data, pos, f) {
        Ok((first, p1)) => if first < 255 {
            Ok((first as u64, p1))
        } else {
            read_fixed(w, data, p1, f)
        },
        Err(e) => Err(e),
    }
}

/// Truncation behaviour of a one-byte read: cutting the stream at `j`
/// leaves a read that ended by `j` unchanged, and turns one that crossed
/// `j` into an end-of-input error.
pub proof fn lemma_trunc_u8(s: Seq<u8>, j: int, pos: int, f: Field)
    requires
        0 <= pos <= j <= s.len(),
        spec_read_u8(s, pos, f) is Ok,
    ensures
        (spec_read_u8(s, pos, f) matches Ok((v, p)) ==> {
            &&& pos < p <= s.len()
            &&& (p <= j ==> spec_read_u8(s.take(j), pos, f) == spec_read_u8(s, pos, f))
            &&& (p > j ==> spec_read_u8(s.take(j), pos, f) == Err::<(u8, int), DecodeError>(
                DecodeError::EndOfInput(f),
            ))
        }),
{
}

/// Truncation behaviour of a fixed 16-bit read.
pub proof fn lemma_trunc_u16(s: Seq<u8>, j: int, pos: int, f: Field)
    requires
        0 <= pos <= j <= s.len(),
        spec_read_u16(s, pos, f) is Ok,
    ensures
        (spec_read_u16(s, pos, f) matches Ok((v, p)) ==> {
            &&& pos < p <= s.len()
            &&& (p <= j ==> spec_read_u16(s.take(j), pos, f) == spec_read_u16(s, pos, f))
            &&& (p > j ==> spec_read_u16(s.take(j), pos, f) == Err::<(u16, int), DecodeError>(
                DecodeError::EndOfInput(f),
            ))
        }),
{
    if pos + 2 <= j {
        assert(le_u16(s.take(j), pos) == le_u16(s, pos));
    }
}

/// Truncation behaviour of a fixed 32-bit read.
pub proof fn lemma_trunc_u32(s: Seq<u8>, j: int, pos: int, f: Field)
    requires
        0 <= pos <= j <= s.len(),
        spec_read_u32(s, pos, f) is Ok,
    ensures
        (spec_read_u32(s, pos, f) matches Ok((v, p)) ==> {
            &&& pos < p <= s.len()
            &&& (p <= j ==> spec_read_u32(s.take(j), pos, f) == spec_read_u32(s, pos, f))
            &&& (p > j ==> spec_read_u32(s.take(j), pos, f) == Err::<(u32, int), DecodeError>(
                DecodeError::EndOfInput(f),
            ))
        }),
{
    if pos + 4 <= j {
        assert(le_u32(s.take(j), pos) == le_u32(s, pos));
    }
}

/// Truncation behaviour of a fixed 64-bit read.
pub proof fn lemma_trunc_u64(s: Seq<u8>, j: int, pos: int, f: Field)
    requires
        0 <= pos <= j <= s.len(),
        spec_read_u64(s, pos, f) is Ok,
    ensures
        (spec_read_u64(s, pos, f) matches Ok((v, p)) ==> {
            &&& pos < p <= s.len()
            &&& (p <= j ==> spec_read_u64(s.take(j), pos, f) == spec_read_u64(s, pos, f))
            &&& (p > j ==> spec_read_u64(s.take(j), pos, f) == Err::<(u64, int), DecodeError>(
                DecodeError::EndOfInput(f),
            ))
        }),
{
    if pos + 8 <= j {
        assert(le_u64(s.take(j), pos) == le_u64(s, pos));
    }
}

/// Truncation behaviour of a fixed read of any width.
pub proof fn lemma_trunc_fixed(w: NumWidth, s: Seq<u8>, j: int, pos: int, f: Field)
    requires
        0 <= pos <= j <= s.len(),
        spec_read_fixed(w, s, pos, f) is Ok,
    ensures
        (spec_read_fixed(w, s, pos, f) matches Ok((v, p)) ==> {
            &&& pos < p <= s.len()
            &&& (p <= j ==> spec_read_fixed(w, s.take(j), pos, f) == spec_read_fixed(w, s, pos, f))
            &&& (p > j ==> spec_read_fixed(w, s.take(j), pos, f) == Err::<
                (u64, int),
                DecodeError,
            >(DecodeError::EndOfInput(f)))
        }),
{
    reveal(spec_read_fixed);
    match w {
        NumWidth::W16 => lemma_trunc_u16(s, j, pos, f),
        NumWidth::W32 => lemma_trunc_u32(s, j, pos, f),
        NumWidth::W64 => lemma_trunc_u64(s, j, pos, f),
    }
}

/// Truncation behaviour of an optimized read of any width.
pub proof fn lemma_trunc_optimized(w: NumWidth, s: Seq<u8>, j: int, pos: int, f: Field)
    requires
        0 <= pos <= j <= s.len(),
        spec_read_optimized(w, s, pos, f) is Ok,
    ensures
        (spec_read_optimized(w, s, pos, f) matches Ok((v, p)) ==> {
            &&& pos < p <= s.len()
            &&& (p <= j ==> spec_read_optimized(w, s.take(j), pos, f) == spec_read_optimized(
                w,
                s,
                pos,
                f,
            ))
            &&& (p > j ==> spec_read_optimized(w, s.take(j), pos, f) == Err::<
                (u64, int),
                DecodeError,
            >(DecodeError::EndOfInput(f)))
        }),
{
    reveal(spec_read_optimized);
    lemma_trunc_u8(s, j, pos, f);
    if pos + 1 <= s.len() && s[pos] == 255 {
        lemma_trunc_fixed(w, s, s.len() as int, pos + 1, f);
        if pos + 1 <= j {
            lemma_trunc_fixed(w, s, j, pos + 1, f);
        }
    }
}

/// Truncation behaviour of a length-prefix read.
pub proof fn lemma_trunc_len(optimized: bool, s: Seq<u8>, j: int, pos: int, f: Field)
    requires
        0 <= pos <= j <= s.len(),
        spec_read_len(optimized, s, pos, f) is Ok,
    ensures
        (spec_read_len(optimized, s, pos, f) matches Ok((v, p)) ==> {
            &&& pos < p <= s.len()
            &&& (p <= j ==> spec_read_len(optimized, s.take(j), pos, f) == spec_read_len(
                optimized,
                s,
                pos,
                f,
            ))
            &&& (p > j ==> spec_read_len(optimized, s.take(j), pos, f) == Err::<
                (u32, int),
                DecodeError,
            >(DecodeError::EndOfInput(f)))
        }),
{
    if optimized {
        lemma_trunc_optimized(NumWidth::W32, s, j, pos, f);
    } else {
        lemma_trunc_u32(s, j, pos, f);
    }
}

/// Truncation behaviour of a string read: a cut inside the string's bytes
/// is an end-of-input error, never a shorter string.
pub proof fn lemma_trunc_string(optimized: bool, s: Seq<u8>, j: int, pos: int, f: Field)
    requires
        0 <= pos <= j <= s.len(),
        spec_read_string(optimized, s, pos, f) is Ok,
    ensures
        (spec_read_string(optimized, s, pos, f) matches Ok((v, p)) ==> {
            &&& pos < p <= s.len()
            &&& (p <= j ==> spec_read_string(optimized, s.take(j), pos, f) == spec_read_string(
                optimized,
                s,
                pos,
                f,
            ))
            &&& (p > j ==> spec_read_string(optimized, s.take(j), pos, f) == Err::<
                (Seq<char>, int),
                DecodeError,
            >(DecodeError::EndOfInput(f)))
        }),
{
    reveal(spec_read_string);
    lemma_trunc_len(optimized, s, j, pos, f);
    match spec_read_len(optimized, s, pos, f) {
        Ok((n, p1)) => {
            if p1 <= j && p1 + n <= j {
                assert(s.take(j).subrange(p1, p1 + n) =~= s.subrange(p1, p1 + n));
            }
        },
        Err(e) => {},
    }
}
/// that byte itself and consumes exactly one byte; in particular every
/// value below 255 is decoded from its own single byte.
pub proof fn lemma_optimized_single_byte(w: NumWidth, s: Seq<u8>, pos: int, f: Field)
    requires
        0 <= pos < s.len(),
        s[pos] != 255,
    ensures
        spec_read_optimized(w, s, pos, f) == Ok::<(u64, int), DecodeError>(
            (s[pos] as u64, pos + 1),
        ),
{
    reveal(spec_read_optimized);
}

/// Law: the sentinel byte 255 escapes to the full fixed-width encoding
/// that follows it, and the decoded value is exactly that fixed-width
/// value.
pub proof fn lemma_optimized_sentinel(w: NumWidth, s: Seq<u8>, pos: int, f: Field)
    requires
        0 <= pos < s.len(),
        s[pos] == 255,
    ensures
        spec_read_optimized(w, s, pos, f) == spec_read_fixed(w, s, pos + 1, f),
{
    reveal(spec_read_optimized);
}

/// Law: a decoded value of 255 or more can only have come through the
/// sentinel escape; the single-byte fast path never yields it.
pub proof fn lemma_optimized_large_needs_sentinel(w: NumWidth, s: Seq<u8>, pos: int, f: Field)
    requires
        0 <= pos,
    ensures
        ((spec_read_optimized(w, s, pos, f) matches Ok(q) && q.0 >= 255) ==> pos < s.len() && s[pos]
            == 255),
{
    reveal(spec_read_optimized);
    reveal(spec_read_fixed);
}

/// What reading a boolean at `pos` yields: one byte, true exactly when it
/// is nonzero.
pub open spec fn spec_read_bool(s: Seq<u8>, pos: int, f: Field) -> Result<(bool, int), DecodeError> {
    match spec_read_u8(s, pos, f) {
        Ok((b, p)) => Ok((b != 0, p)),
        Err(e) => Err(e),
    }
}

/// Read a boolean: one byte, true exactly when it is nonzero.
pub fn read_bool(data: &[u8], pos: usize, f: Field) -> (r: Result<(bool, usize), DecodeError>)
    ensures
        (match r {
            Ok((v, p)) => spec_read_bool(data@, pos as int, f) == Ok::<(bool, int), DecodeError>(
                (v, p as int),
            ),
            Err(e) => spec_read_bool(data@, pos as int, f) == Err::<(bool, int), DecodeError>(e),
        }),
{
    match read_u8(data, pos, f) {
        Ok((b, p)) => Ok((b != 0, p)),
        Err(e) => Err(e),
    }
}

/// What reading the optional quality-version byte yields: absent eras
/// consume no bytes.
pub open spec fn spec_read_quality_version(present: bool, s: Seq<u8>, pos: int) -> Result<
    (Option<u8>, int),
    DecodeError,
> {
    if present {
        match spec_read_u8(s, pos, Field::QualityVersion) {
            Ok((b, p)) => Ok((Some(b), p)),
            Err(e) => Err(e),
        }
    } else {
        Ok((None, pos))
    }
}

/// Read the quality-version byte when the active era has one; eras without
/// it consume no bytes and yield no value.
pub fn read_quality_version(present: bool, data: &[u8], pos: usize) -> (r: Result<
    (Option<u8>, usize),
    DecodeError,
>)
    ensures
        (match r {
            Ok((v, p)) => spec_read_quality_version(present, data@, pos as int) == Ok::<
                (Option<u8>, int),
                DecodeError,
            >((v, p as int)),
            Err(e) => spec_read_quality_version(present, data@, pos as int) == Err::<
                (Option<u8>, int),
                DecodeError,
            >(e),
        }),
{
    if present {
        match read_u8(data, pos, Field::QualityVersion) {
            Ok((b, p)) => Ok((Some(b), p)),
            Err(e) => Err(e),
        }
    } else {
        Ok((None, pos))
    }
}

/// What reading the optional allow-non-admin-debug-options flag yields:
/// absent eras consume no bytes.
pub open spec fn spec_read_debug_options(present: bool, s: Seq<u8>, pos: int) -> Result<
    (Option<bool>, int),
    DecodeError,
> {
    if present {
        match spec_read_bool(s, pos, Field::AllowNonAdminDebugOptions) {
            Ok((b, p)) => Ok((Some(b), p)),
            Err(e) => Err(e),
        }
    } else {
        Ok((None, pos))
    }
}

/// Read the allow-non-admin-debug-options flag when the active era has
/// one; eras without it consume no bytes and yield no value.
pub fn read_allow_non_admin_debug_options(present: bool, data: &[u8], pos: usize) -> (r: Result<
    (Option<bool>, usize),
    DecodeError,
>)
    ensures
        (match r {
            Ok((v, p)) => spec_read_debug_options(present, data@, pos as int) == Ok::<
                (Option<bool>, int),
                DecodeError,
            >((v, p as int)),
            Err(e) => spec_read_debug_options(present, data@, pos as int) == Err::<
                (Option<bool>, int),
                DecodeError,
            >(e),
        }),
{
    if present {
        match read_bool(data, pos, Field::AllowNonAdminDebugOptions) {
            Ok((b, p)) => Ok((Some(b), p)),
            Err(e) => Err(e),
        }
    } else {
        Ok((None, pos))
    }
}

/// What reading one 16-bit component yields, under the fixed or the
/// optimized encoding as `optimized` says.
pub open spec fn spec_read_u16_encoded(optimized: bool, s: Seq<u8>, pos: int, f: Field) -> Result<
    (u16, int),
    DecodeError,
> {
    if optimized {
        match spec_read_optimized(NumWidth::W16, s, pos, f) {
            Ok((v, p)) => Ok((v as u16, p)),
            Err(e) => Err(e),
        }
    } else {
        spec_read_u16(s, pos, f)
    }
}

/// Read one 16-bit component under the encoding that `optimized` says.
pub fn read_u16_encoded(optimized: bool, data: &[u8], pos: usize, f: Field) -> (r: Result<
    (u16, usize),
    DecodeError,
>)
    ensures
        (match r {
            Ok((v, p)) => spec_read_u16_encoded(optimized, data@, pos as int, f) == Ok::<
                (u16, int),
                DecodeError,
            >((v, p as int)),
            Err(e) => spec_read_u16_encoded(optimized, data@, pos as int, f) == Err::<
                (u16, int),
                DecodeError,
            >(e),
        }),
{
    if optimized {
        match read_optimized(NumWidth::W16, data, pos, f) {
            Ok((v, p)) => Ok((v as u16, p)),
            Err(e) => Err(e),
        }
    } else {
        read_u16(data, pos, f)
    }
}

/// What reading a version triple yields: three 16-bit components, each
/// under the era's integer encoding.
pub open spec fn spec_read_triple(optimized: bool, s: Seq<u8>, pos: int, f: Field) -> Result<
    ((u16, u16, u16), int),
    DecodeError,
> {
    match spec_read_u16_encoded(optimized, s, pos, f) {
        Ok((a, p1)) => match spec_read_u16_encoded(optimized, s, p1, f) {
            Ok((b, p2)) => match spec_read_u16_encoded(optimized, s, p2, f) {
                Ok((c, p3)) => Ok(((a, b, c), p3)),
                Err(e) => Err(e),
            },
            Err(e) => Err(e),
        },
        Err(e) => Err(e),
    }
}

/// Read a version triple: three 16-bit components, each under the era's
/// integer encoding.
pub fn read_triple(optimized: bool, data: &[u8], pos: usize, f: Field) -> (r: Result<
    ((u16, u16, u16), usize),
    DecodeError,
>)
    ensures
        (match r {
            Ok((v, p)) => spec_read_triple(optimized, data@, pos as int, f) == Ok::<
                ((u16, u16, u16), int),
                DecodeError,
            >((v, p as int)),
            Err(e) => spec_read_triple(optimized, data@, pos as int, f) == Err::<
                ((u16, u16, u16), int),
                DecodeError,
            >(e),
        }),
{
    let (a, p1) = match read_u16_encoded(optimized, data, pos, f) {
        Ok(x) => x,
        Err(e) => {
            return Err(e);
        },
    };
    let (b, p2) = match read_u16_encoded(optimized, data, p1, f) {
        Ok(x) => x,
        Err(e) => {
            return Err(e);
        },
    };
    let (c, p3) = match read_u16_encoded(optimized, data, p2, f) {
        Ok(x) => x,
        Err(e) => {
            return Err(e);
        },
    };
    Ok(((a, b, c), p3))
}

/// Read the loaded-from version triple under the era's integer encoding.
pub fn read_loaded_from(optimized: bool, data: &[u8], pos: usize) -> (r: Result<
    ([u16; 3], usize),
    DecodeError,
>)
    ensures
        (match r {
            Ok((a, p)) => (spec_read_triple(optimized, data@, pos as int, Field::LoadedFrom)
                matches Ok(q) && q.0 == (a[0], a[1], a[2]) && q.1 == p as int),
            Err(e) => spec_read_triple(optimized, data@, pos as int, Field::LoadedFrom) == Err::<
                ((u16, u16, u16), int),
                DecodeError,
            >(e),
        }),
{
    match read_triple(optimized, data, pos, Field::LoadedFrom) {
        Ok(((a, b, c), p)) => Ok(([a, b, c], p)),
        Err(e) => Err(e),
    }
}

/// What reading the loaded-from build number yields: an optimized 32-bit
/// integer in the eras that widened it, a fixed 16-bit integer before.
pub open spec fn spec_read_build(optimized: bool, s: Seq<u8>, pos: int) -> Result<
    (u32, int),
    DecodeError,
> {
    if optimized {
        match spec_read_optimized(NumWidth::W32, s, pos, Field::LoadedFromBuild) {
            Ok((v, p)) => Ok((v as u32, p)),
            Err(e) => Err(e),
        }
    } else {
        match spec_read_u16(s, pos, Field::LoadedFromBuild) {
            Ok((v, p)) => Ok((v as u32, p)),
            Err(e) => Err(e),
        }
    }
}

/// Read the loaded-from build number under the era's rule.
pub fn read_build(optimized: bool, data: &[u8], pos: usize) -> (r: Result<
    (u32, usize),
    DecodeError,
>)
    ensures
        (match r {
            Ok((v, p)) => spec_read_build(optimized, data@, pos as int) == Ok::<
                (u32, int),
                DecodeError,
            >((v, p as int)),
            Err(e) => spec_read_build(optimized, data@, pos as int) == Err::<
                (u32, int),
                DecodeError,
            >(e),
        }),
{
    if optimized {
        match read_optimized(NumWidth::W32, data, pos, Field::LoadedFromBuild) {
            Ok((v, p)) => Ok((v as u32, p)),
            Err(e) => Err(e),
        }
    } else {
        match read_u16(data, pos, Field::LoadedFromBuild) {
            Ok((v, p)) => Ok((v as u32, p)),
            Err(e) => Err(e),
        }
    }
}

/// What reading a 32-bit length prefix at `pos` yields, under the fixed or
/// the optimized encoding as `optimized` says.
pub open spec fn spec_read_len(optimized: bool, s: Seq<u8>, pos: int, f: Field) -> Result<
    (u32, int),
    DecodeError,
> {
    if optimized {
        match spec_read_optimized(NumWidth::W32, s, pos, f) {
            Ok((v, p)) => Ok((v as u32, p)),
            Err(e) => Err(e),
        }
    } else {
        spec_read_u32(s, pos, f)
    }
}

/// Read a 32-bit length prefix under the encoding that `optimized` says.
pub fn read_len(optimized: bool, data: &[u8], pos: usize, f: Field) -> (r: Result<
    (u32, usize),
    DecodeError,
>)
    ensures
        (match r {
            Ok((v, p)) => spec_read_len(optimized, data@, pos as int, f) == Ok::<
                (u32, int),
                DecodeError,
            >((v, p as int)),
            Err(e) => spec_read_len(optimized, data@, pos as int, f) == Err::<
                (u32, int),
                DecodeError,
            >(e),
        }),
{
    if optimized {
        match read_optimized(NumWidth::W32, data, pos, f) {
            Ok((v, p)) => Ok((v as u32, p)),
            Err(e) => Err(e),
        }
    } else {
        read_u32(data, pos, f)
    }
}

/// What reading a length-prefixed UTF-8 string at `pos` yields: the decoded
/// characters and the position after the string's bytes.  Opaque: proofs
/// that chain reads along need only its result, not the shape of UTF-8.
#[verifier::opaque]
pub open spec fn spec_read_string(optimized: bool, s: Seq<u8>, pos: int, f: Field) -> Result<
    (Seq<char>, int),
    DecodeError,
> {
    match spec_read_len(optimized, s, pos, f) {
        Ok((n, p)) => if p + n <= s.len() {
            if valid_utf8(s.subrange(p, p + n)) {
                Ok((decode_utf8(s.subrange(p, p + n)), p + n))
            } else {
                Err(DecodeError::InvalidUtf8(f))
            }
        } else {
            Err(DecodeError::EndOfInput(f))
        },
        Err(e) => Err(e),
    }
}

/// Relies on `String::from_utf8`: it succeeds exactly on UTF-8 input, and
/// the returned string's characters are the UTF-8 decoding of the input
/// bytes.
#[verifier::external_body]
fn bytes_to_string(bytes: Vec<u8>) -> (r: Option<String>)
    ensures
        (r matches Some(st) ==> valid_utf8(bytes@) && st@ == decode_utf8(bytes@)),
        (r is None ==> !valid_utf8(bytes@)),
{
    match String::from_utf8(bytes) {
        Ok(st) => Some(st),
        Err(_) => None,
    }
}

/// Read a length-prefixed UTF-8 string: a 32-bit length under the encoding
/// that `optimized` says, then that many bytes of UTF-8 text with no
/// terminator.  Bytes that are not valid UTF-8 are a decode error.
pub fn read_string(optimized: bool, data: &[u8], pos: usize, f: Field) -> (r: Result<
    (String, usize),
    DecodeError,
>)
    ensures
        (match r {
            Ok((st, p)) => (spec_read_string(optimized, data@, pos as int, f) matches Ok(q)
                && q.0 == st@ && q.1 == p as int),
            Err(e) => spec_read_string(optimized, data@, pos as int, f) == Err::<
                (Seq<char>, int),
                DecodeError,
            >(e),
        }),
{
    proof {
        reveal(spec_read_string);
    }
    let (n, p) = match read_len(optimized, data, pos, f) {
        Ok(x) => x,
        Err(e) => {
            return Err(e);
        },
    };
    let n_us = n as usize;
    if n_us <= data.len() && p <= data.len() - n_us {
        let mut buf: Vec<u8> = Vec::new();
        let end: usize = p + n_us;
        let mut j: usize = p;
        while j < end
            invariant
                p <= j <= end,
                end == p + n_us,
                end <= data@.len(),
                buf@ =~= data@.subrange(p as int, j as int),
            decreases end - j,
        {
            buf.push(data[j]);
            j = j + 1;
        }
        assert(buf@ =~= data@.subrange(p as int, p as int + n_us as int));
        match bytes_to_string(buf) {
            Some(st) => Ok((st, p + n_us)),
            None => Err(DecodeError::InvalidUtf8(f)),
        }
    } else {
        Err(DecodeError::EndOfInput(f))
    }
}

/// Truncation behaviour of a boolean read.
pub proof fn lemma_trunc_bool(s: Seq<u8>, j: int, pos: int, f: Field)
    requires
        0 <= pos <= j <= s.len(),
        spec_read_bool(s, pos, f) is Ok,
    ensures
        (spec_read_bool(s, pos, f) matches Ok((v, p)) ==> {
            &&& pos < p <= s.len()
            &&& (p <= j ==> spec_read_bool(s.take(j), pos, f) == spec_read_bool(s, pos, f))
            &&& (p > j ==> spec_read_bool(s.take(j), pos, f) == Err::<(bool, int), DecodeError>(
                DecodeError::EndOfInput(f),
            ))
        }),
{
    lemma_trunc_u8(s, j, pos, f);
}

/// Truncation behaviour of the optional quality-version read.
pub proof fn lemma_trunc_quality_version(present: bool, s: Seq<u8>, j: int, pos: int)
    requires
        0 <= pos <= j <= s.len(),
        spec_read_quality_version(present, s, pos) is Ok,
    ensures
        (spec_read_quality_version(present, s, pos) matches Ok((v, p)) ==> {
            &&& pos <= p <= s.len()
            &&& (p <= j ==> spec_read_quality_version(present, s.take(j), pos)
                == spec_read_quality_version(present, s, pos))
            &&& (p > j ==> spec_read_quality_version(present, s.take(j), pos) == Err::<
                (Option<u8>, int),
                DecodeError,
            >(DecodeError::EndOfInput(Field::QualityVersion)))
        }),
{
    if present {
        lemma_trunc_u8(s, j, pos, Field::QualityVersion);
    }
}

/// Truncation behaviour of the optional debug-options read.
pub proof fn lemma_trunc_debug_options(present: bool, s: Seq<u8>, j: int, pos: int)
    requires
        0 <= pos <= j <= s.len(),
        spec_read_debug_options(present, s, pos) is Ok,
    ensures
        (spec_read_debug_options(present, s, pos) matches Ok((v, p)) ==> {
            &&& pos <= p <= s.len()
            &&& (p <= j ==> spec_read_debug_options(present, s.take(j), pos)
                == spec_read_debug_options(present, s, pos))
            &&& (p > j ==> spec_read_debug_options(present, s.take(j), pos) == Err::<
                (Option<bool>, int),
                DecodeError,
            >(DecodeError::EndOfInput(Field::AllowNonAdminDebugOptions)))
        }),
{
    if present {
        lemma_trunc_bool(s, j, pos, Field::AllowNonAdminDebugOptions);
    }
}

/// Truncation behaviour of one 16-bit component read.
pub proof fn lemma_trunc_u16_encoded(optimized: bool, s: Seq<u8>, j: int, pos: int, f: Field)
    requires
        0 <= pos <= j <= s.len(),
        spec_read_u16_encoded(optimized, s, pos, f) is Ok,
    ensures
        (spec_read_u16_encoded(optimized, s, pos, f) matches Ok((v, p)) ==> {
            &&& pos < p <= s.len()
            &&& (p <= j ==> spec_read_u16_encoded(optimized, s.take(j), pos, f)
                == spec_read_u16_encoded(optimized, s, pos, f))
            &&& (p > j ==> spec_read_u16_encoded(optimized, s.take(j), pos, f) == Err::<
                (u16, int),
                DecodeError,
            >(DecodeError::EndOfInput(f)))
        }),
{
    if optimized {
        lemma_trunc_optimized(NumWidth::W16, s, j, pos, f);
    } else {
        lemma_trunc_u16(s, j, pos, f);
    }
}

/// Truncation behaviour of a version-triple read.
pub proof fn lemma_trunc_triple(optimized: bool, s: Seq<u8>, j: int, pos: int, f: Field)
    requires
        0 <= pos <= j <= s.len(),
        spec_read_triple(optimized, s, pos, f) is Ok,
    ensures
        (spec_read_triple(optimized, s, pos, f) matches Ok((v, p)) ==> {
            &&& pos < p <= s.len()
            &&& (p <= j ==> spec_read_triple(optimized, s.take(j), pos, f) == spec_read_triple(
                optimized,
                s,
                pos,
                f,
            ))
            &&& (p > j ==> spec_read_triple(optimized, s.take(j), pos, f) == Err::<
                ((u16, u16, u16), int),
                DecodeError,
            >(DecodeError::EndOfInput(f)))
        }),
{
    match spec_read_u16_encoded(optimized, s, pos, f) {
        Ok((a, p1)) => {
            lemma_trunc_u16_encoded(optimized, s, j, pos, f);
            match spec_read_u16_encoded(optimized, s, p1, f) {
                Ok((b, p2)) => {
                    lemma_trunc_u16_encoded(optimized, s, s.len() as int, p1, f);
                    if p1 <= j {
                        lemma_trunc_u16_encoded(optimized, s, j, p1, f);
                    }
                    match spec_read_u16_encoded(optimized, s, p2, f) {
                        Ok((c, p3)) => {
                            lemma_trunc_u16_encoded(optimized, s, s.len() as int, p2, f);
                            if p2 <= j {
                                lemma_trunc_u16_encoded(optimized, s, j, p2, f);
                            }
                        },
                        Err(e) => {},
                    }
                },
                Err(e) => {},
            }
        },
        Err(e) => {},
    }
}

/// Truncation behaviour of the build-number read.
pub proof fn lemma_trunc_build(optimized: bool, s: Seq<u8>, j: int, pos: int)
    requires
        0 <= pos <= j <= s.len(),
        spec_read_build(optimized, s, pos) is Ok,
    ensures
        (spec_read_build(optimized, s, pos) matches Ok((v, p)) ==> {
            &&& pos < p <= s.len()
            &&& (p <= j ==> spec_read_build(optimized, s.take(j), pos) == spec_read_build(
                optimized,
                s,
                pos,
            ))
            &&& (p > j ==> spec_read_build(optimized, s.take(j), pos) == Err::<
                (u32, int),
                DecodeError,
            >(DecodeError::EndOfInput(Field::LoadedFromBuild)))
        }),
{
    if optimized {
        lemma_trunc_optimized(NumWidth::W32, s, j, pos, Field::LoadedFromBuild);
    } else {
        lemma_trunc_u16(s, j, pos, Field::LoadedFromBuild);
    }
}

} // verus!
