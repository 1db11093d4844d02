//! Shape of a TGA file from its fixed 18-byte header.
use vstd::prelude::*;
use crate::error::HResultError;
use crate::metadata::{TexDimension, TexMetadata, TEX_ALPHA_MODE_OPAQUE, TEX_ALPHA_MODE_UNKNOWN};

verus! {

/// Size of the fixed header.
pub const TGA_HEADER_SIZE: usize = 18;

/// Load flags: report truecolor as blue-first 8-bit formats (24-bit as
/// B8G8R8X8, 32-bit as B8G8R8A8).
pub const TGA_FLAGS_BGR: u32 = 0x1;
/// Load flags: report 8-bit grayscale as 8-bit RGBA instead of one channel.
pub const TGA_FLAGS_EXPAND_LUMINANCE: u32 = 0x4;

/// The little-endian 16-bit word at byte `o`.
pub open spec fn le16(s: Seq<u8>, o: int) -> int {
    s[o] as int + s[o + 1] as int * 0x100
}

/// The format of a truecolor or grayscale image of `bits` bits per pixel
/// with image type `kind`; 0 when that depth is not valid for it.
pub open spec fn tga_format(kind: u8, bits: u8, flags: u32) -> u32 {
    if kind == 2 || kind == 10 {
        if bits == 16 {
            86
        } else if bits == 24 {
            if flags & TGA_FLAGS_BGR != 0 { 88 } else { 28 }
        } else if bits == 32 {
            if flags & TGA_FLAGS_BGR != 0 { 87 } else { 28 }
        } else {
            0
        }
    } else if bits == 8 {
        if flags & TGA_FLAGS_EXPAND_LUMINANCE != 0 { 28 } else { 61 }
    } else {
        0
    }
}

/// Alpha mode from the descriptor's alpha-bit count (its low four bits):
/// opaque when the pixels carry no alpha bits, unknown otherwise.
pub open spec fn tga_alpha_mode(descriptor: u8) -> u32 {
    if descriptor & 0x0f == 0 { TEX_ALPHA_MODE_OPAQUE } else { TEX_ALPHA_MODE_UNKNOWN }
}

/// The shape that a TGA file `s` describes, or the error that reading it
/// gives.
pub open spec fn tga_result(s: Seq<u8>, flags: u32) -> Result<TexMetadata, HResultError> {
    if s.len() < TGA_HEADER_SIZE {
        Err(HResultError::ParseError)
    } else {
        let kind = s[2];
        let width = le16(s, 12);
        let height = le16(s, 14);
        if s[1] != 0 || le16(s, 5) != 0 || s[17] & 0xc0 != 0 {
            Err(HResultError::UnsupportedFormat)
        } else if width == 0 || height == 0 {
            Err(HResultError::ParseError)
        } else if !(kind == 2 || kind == 10 || kind == 3 || kind == 11) {
            Err(HResultError::UnsupportedFormat)
        } else if tga_format(kind, s[16], flags) == 0 {
            Err(HResultError::ParseError)
        } else {
            Ok(TexMetadata {
                width: width as usize,
                height: height as usize,
                depth: 1,
                array_size: 1,
                mip_levels: 1,
                misc_flags: 0,
                misc_flags2: tga_alpha_mode(s[17]),
                format: tga_format(kind, s[16], flags),
                dimension: TexDimension::Texture2D,
            })
        }
    }
}

fn read_u16(s: &[u8], o: usize) -> (r: usize)
    requires
        o + 2 <= s@.len(),
    ensures
        r == le16(s@, o as int),
{
    s[o] as usize + s[o + 1] as usize * 0x100
}

/// Reads the shape of the TGA file held in `source`. Fails with
/// `ParseError` on a truncated header, a zero size or a pixel depth that
/// the image type does not allow, and with `UnsupportedFormat` for
/// color-mapped, interleaved or image-less files. The alpha mode comes
/// from the descriptor's alpha-bit count.
pub fn get_metadata_from_tga_memory(source: &[u8], flags: u32) -> (r: Result<TexMetadata, HResultError>)
    ensures
        r == tga_result(source@, flags),
{
    if source.len() < TGA_HEADER_SIZE {
        return Err(HResultError::ParseError);
    }
    let kind = source[2];
    let bits = source[16];
    let width = read_u16(source, 12);
    let height = read_u16(source, 14);
    if source[1] != 0 || read_u16(source, 5) != 0 || source[17] & 0xc0 != 0 {
        return Err(HResultError::UnsupportedFormat);
    }
    if width == 0 || height == 0 {
        return Err(HResultError::ParseError);
    }
    if !(kind == 2 || kind == 10 || kind == 3 || kind == 11) {
        return Err(HResultError::UnsupportedFormat);
    }
    let format: u32 = if kind == 2 || kind == 10 {
        if bits == 16 {
            86
        } else if bits == 24 {
            if flags & TGA_FLAGS_BGR != 0 { 88 } else { 28 }
        } else if bits == 32 {
            if flags & TGA_FLAGS_BGR != 0 { 87 } else { 28 }
        } else {
            0
        }
    } else if bits == 8 {
        if flags & TGA_FLAGS_EXPAND_LUMINANCE != 0 { 28 } else { 61 }
    } else {
        0
    };
    if format == 0 {
        return Err(HResultError::ParseError);
    }
    let alpha_mode = if source[17] & 0x0f == 0 { TEX_ALPHA_MODE_OPAQUE } else { TEX_ALPHA_MODE_UNKNOWN };
    Ok(TexMetadata {
        width,
        height,
        depth: 1,
        array_size: 1,
        mip_levels: 1,
        misc_flags: 0,
        misc_flags2: alpha_mode,
        format,
        dimension: TexDimension::Texture2D,
    })
}

} // verus!
