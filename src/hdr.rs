//! Shape of a Radiance HDR file from its ASCII header: a signature line,
//! header lines up to a blank line, then a resolution line `-Y <h> +X <w>`.
use vstd::prelude::*;
use crate::error::HResultError;
use crate::metadata::{TexDimension, TexMetadata, TEX_ALPHA_MODE_OPAQUE};

verus! {

/// Sizes of this value or more are rejected.
pub const HDR_SIZE_LIMIT: u64 = 0x1_0000_0000;

/// "#?RADIANCE"
pub open spec fn radiance_signature() -> Seq<u8> {
    seq![35u8, 63, 82, 65, 68, 73, 65, 78, 67, 69]
}

/// "#?RGBE"
pub open spec fn rgbe_signature() -> Seq<u8> {
    seq![35u8, 63, 82, 71, 66, 69]
}

pub open spec fn has_prefix_at(s: Seq<u8>, at: int, p: Seq<u8>) -> bool {
    0 <= at && at + p.len() <= s.len() && s.subrange(at, at + p.len() as int) == p
}

pub open spec fn is_digit(b: u8) -> bool {
    48 <= b <= 57
}

/// The first index at or after `i` that does not hold a digit.
pub open spec fn digits_end(s: Seq<u8>, i: int) -> int
    decreases s.len() - i,
{
    if 0 <= i < s.len() && is_digit(s[i]) {
        digits_end(s, i + 1)
    } else {
        i
    }
}

/// The decimal value of `s[i..j]`, held at `HDR_SIZE_LIMIT` once it
/// reaches it.
pub open spec fn capped_decimal(s: Seq<u8>, i: int, j: int) -> int
    decreases j - i,
{
    if j <= i {
        0
    } else {
        let v = capped_decimal(s, i, j - 1) * 10 + (s[j - 1] - 48);
        if v >= HDR_SIZE_LIMIT { HDR_SIZE_LIMIT as int } else { v }
    }
}

/// The index just past the first blank line (two newlines in a row) at or
/// after `i`; -1 when there is none.
pub open spec fn header_end(s: Seq<u8>, i: int) -> int
    decreases s.len() - i,
{
    if i < 0 || i + 1 >= s.len() {
        -1
    } else if s[i] == 10 && s[i + 1] == 10 {
        i + 2
    } else {
        header_end(s, i + 1)
    }
}

/// "-Y "
pub open spec fn y_marker() -> Seq<u8> {
    seq![45u8, 89, 32]
}

/// " +X "
pub open spec fn x_marker() -> Seq<u8> {
    seq![32u8, 43, 88, 32]
}

/// The shape that an HDR file `s` describes, or `ParseError`.
pub open spec fn hdr_result(s: Seq<u8>) -> Result<TexMetadata, HResultError> {
    let p = header_end(s, 0);
    let e1 = digits_end(s, p + 3);
    let e2 = digits_end(s, e1 + 4);
    let h = capped_decimal(s, p + 3, e1);
    let w = capped_decimal(s, e1 + 4, e2);
    if !has_prefix_at(s, 0, radiance_signature()) && !has_prefix_at(s, 0, rgbe_signature()) {
        Err(HResultError::ParseError)
    } else if p < 0 || !has_prefix_at(s, p, y_marker()) || e1 == p + 3 {
        Err(HResultError::ParseError)
    } else if !has_prefix_at(s, e1, x_marker()) || e2 == e1 + 4 || e2 >= s.len() || s[e2] != 10 {
        Err(HResultError::ParseError)
    } else if h == 0 || w == 0 || h >= HDR_SIZE_LIMIT || w >= HDR_SIZE_LIMIT {
        Err(HResultError::ParseError)
    } else {
        Ok(TexMetadata {
            width: w as usize,
            height: h as usize,
            depth: 1,
            array_size: 1,
            mip_levels: 1,
            misc_flags: 0,
            misc_flags2: TEX_ALPHA_MODE_OPAQUE,
            format: 2,
            dimension: TexDimension::Texture2D,
        })
    }
}

fn matches_at(s: &[u8], at: usize, p: &[u8]) -> (r: bool)
    ensures
        r == has_prefix_at(s@, at as int, p@),
{
    if p.len() > s.len() || at > s.len() - p.len() {
        return false;
    }
    let n = s.len();
    let mut k: usize = 0;
    while k < p.len()
        invariant
            n == s@.len(),
            at + p@.len() <= s@.len(),
            k <= p@.len(),
            forall|i: int| 0 <= i < k ==> s@[at + i] == p@[i],
        decreases p@.len() - k,
    {
        if s[at + k] != p[k] {
            proof {
                assert(s@.subrange(at as int, at + p@.len())[k as int] != p@[k as int]);
            }
            return false;
        }
        k = k + 1;
    }
    proof {
        assert(s@.subrange(at as int, at + p@.len()) =~= p@);
    }
    true
}

fn find_header_end(s: &[u8]) -> (r: Option<usize>)
    ensures
        r.is_none() == (header_end(s@, 0) < 0),
        r matches Some(p) ==> p as int == header_end(s@, 0),
{
    let n = s.len();
    if n < 2 {
        return None;
    }
    let mut i: usize = 0;
    while i < n - 1
        invariant
            n == s@.len(),
            n >= 2,
            header_end(s@, 0) == header_end(s@, i as int),
        decreases s@.len() - i,
    {
        if s[i] == 10 && s[i + 1] == 10 {
            return Some(i + 2);
        }
        i = i + 1;
    }
    None
}

/// The end of the digit run starting at `start` and its capped value.
fn read_decimal(s: &[u8], start: usize) -> (r: (usize, u64))
    requires
        start <= s@.len(),
    ensures
        r.0 == digits_end(s@, start as int),
        r.1 == capped_decimal(s@, start as int, r.0 as int),
{
    let mut j = start;
    let mut v: u64 = 0;
    while j < s.len() && 48 <= s[j] && s[j] <= 57
        invariant
            start <= j <= s@.len(),
            digits_end(s@, start as int) == digits_end(s@, j as int),
            v == capped_decimal(s@, start as int, j as int),
            v <= HDR_SIZE_LIMIT,
        decreases s@.len() - j,
    {
        let d = (s[j] - 48) as u64;
        let next = v * 10 + d;
        v = if next >= HDR_SIZE_LIMIT { HDR_SIZE_LIMIT } else { next };
        j = j + 1;
    }
    (j, v)
}

/// Reads the shape of the Radiance HDR file held in `source`: always one
/// 2D image of 32-bit float RGBA. Fails with `ParseError` on a bad
/// signature, a missing blank line, a malformed resolution line or a zero
/// or oversized dimension.
pub fn get_metadata_from_hdr_memory(source: &[u8]) -> (r: Result<TexMetadata, HResultError>)
    ensures
        r == hdr_result(source@),
{
    let radiance_bytes: [u8; 10] = [35u8, 63, 82, 65, 68, 73, 65, 78, 67, 69];
    let rgbe_bytes: [u8; 6] = [35u8, 63, 82, 71, 66, 69];
    let y_bytes: [u8; 3] = [45u8, 89, 32];
    let x_bytes: [u8; 4] = [32u8, 43, 88, 32];
    let radiance = radiance_bytes.as_slice();
    let rgbe = rgbe_bytes.as_slice();
    let y_mark = y_bytes.as_slice();
    let x_mark = x_bytes.as_slice();
    proof {
        assert(radiance@ =~= radiance_signature());
        assert(rgbe@ =~= rgbe_signature());
        assert(y_mark@ =~= y_marker());
        assert(x_mark@ =~= x_marker());
        assert(y_marker().len() == 3);
        assert(x_marker().len() == 4);
    }
    let len = source.len();
    if !matches_at(source, 0, radiance) && !matches_at(source, 0, rgbe) {
        return Err(HResultError::ParseError);
    }
    let p = match find_header_end(source) {
        None => {
            return Err(HResultError::ParseError);
        },
        Some(p) => p,
    };
    if !matches_at(source, p, y_mark) {
        return Err(HResultError::ParseError);
    }
    let (e1, h) = read_decimal(source, p + 3);
    if e1 == p + 3 {
        return Err(HResultError::ParseError);
    }
    if !matches_at(source, e1, x_mark) {
        return Err(HResultError::ParseError);
    }
    let (e2, w) = read_decimal(source, e1 + 4);
    if e2 == e1 + 4 || e2 >= len || source[e2] != 10 {
        return Err(HResultError::ParseError);
    }
    if h == 0 || w == 0 || h >= HDR_SIZE_LIMIT || w >= HDR_SIZE_LIMIT {
        return Err(HResultError::ParseError);
    }
    Ok(TexMetadata {
        width: w as usize,
        height: h as usize,
        depth: 1,
        array_size: 1,
        mip_levels: 1,
        misc_flags: 0,
        misc_flags2: TEX_ALPHA_MODE_OPAQUE,
        format: 2,
        dimension: TexDimension::Texture2D,
    })
}

} // verus!
