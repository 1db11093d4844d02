//! Shape of a DDS file from its headers: signature, fixed header, legacy
//! pixel format and optional DX10 extension header.
use vstd::prelude::*;
use crate::error::HResultError;
use crate::format::bpp_of;
use crate::format::bits_per_pixel;
use crate::metadata::{TexDimension, TexMetadata, TEX_ALPHA_MODE_PREMULTIPLIED, TEX_MISC_TEXTURECUBE};

verus! {

/// "DDS " as a little-endian word.
pub const DDS_MAGIC: u32 = 0x2053_4444;
/// Signature plus fixed header.
pub const DDS_MIN_SIZE: usize = 128;
/// Signature, fixed header and DX10 extension header.
pub const DDS_DX10_SIZE: usize = 148;

/// Load flags: report blue-first 8-bit formats as their red-first variant.
pub const DDS_FLAGS_FORCE_RGB: u32 = 0x8;
/// Load flags: report 16-bit packed formats as 8-bit RGBA.
pub const DDS_FLAGS_NO_16BPP: u32 = 0x10;

/// "DX10" as a little-endian word: the extension header follows.
pub const FOURCC_DX10: u32 = 0x3031_5844;

/// The little-endian word at byte `o`.
pub open spec fn le32(s: Seq<u8>, o: int) -> int {
    s[o] as int + s[o + 1] as int * 0x100 + s[o + 2] as int * 0x1_0000 + s[o + 3] as int * 0x100_0000
}

fn read_u32(s: &[u8], o: usize) -> (r: u32)
    requires
        o + 4 <= s@.len(),
    ensures
        r == le32(s@, o as int),
{
    s[o] as u32 + s[o + 1] as u32 * 0x100 + s[o + 2] as u32 * 0x1_0000 + s[o + 3] as u32 * 0x100_0000
}

/// The format a legacy pixel-format block stands for; 0 when none.
pub open spec fn legacy_format(pf_flags: u32, fourcc: u32, bits: u32, r: u32, g: u32, b: u32, a: u32) -> u32 {
    if pf_flags & 0x4 != 0 {
        if fourcc == 0x3154_5844 { 71 }
        else if fourcc == 0x3254_5844 || fourcc == 0x3354_5844 { 74 }
        else if fourcc == 0x3454_5844 || fourcc == 0x3554_5844 { 77 }
        else if fourcc == 0x3149_5441 || fourcc == 0x5534_4342 { 80 }
        else if fourcc == 0x5334_4342 { 81 }
        else if fourcc == 0x3249_5441 || fourcc == 0x5535_4342 { 83 }
        else if fourcc == 0x5335_4342 { 84 }
        else if fourcc == 0x4742_4752 { 68 }
        else if fourcc == 0x4247_5247 { 69 }
        else if fourcc == 0x3259_5559 { 107 }
        else if fourcc == 36 { 11 }
        else if fourcc == 110 { 13 }
        else if fourcc == 111 { 54 }
        else if fourcc == 112 { 34 }
        else if fourcc == 113 { 10 }
        else if fourcc == 114 { 41 }
        else if fourcc == 115 { 16 }
        else if fourcc == 116 { 2 }
        else { 0 }
    } else if pf_flags & 0x40 != 0 {
        if bits == 32 {
            if r == 0xff && g == 0xff00 && b == 0xff_0000 && a == 0xff00_0000 { 28 }
            else if r == 0xff_0000 && g == 0xff00 && b == 0xff && a == 0xff00_0000 { 87 }
            else if r == 0xff_0000 && g == 0xff00 && b == 0xff && a == 0 { 88 }
            else if r == 0x3ff && g == 0xf_fc00 && b == 0x3ff0_0000 && a == 0xc000_0000 { 24 }
            else if r == 0xffff && g == 0xffff_0000 && b == 0 && a == 0 { 35 }
            else if r == 0xffff_ffff && g == 0 && b == 0 && a == 0 { 41 }
            else { 0 }
        } else if bits == 16 {
            if r == 0xf800 && g == 0x7e0 && b == 0x1f && a == 0 { 85 }
            else if r == 0x7c00 && g == 0x3e0 && b == 0x1f && a == 0x8000 { 86 }
            else if r == 0xf00 && g == 0xf0 && b == 0xf && a == 0xf000 { 115 }
            else { 0 }
        } else {
            0
        }
    } else if pf_flags & 0x2_0000 != 0 {
        if bits == 8 && r == 0xff && a == 0 { 61 }
        else if bits == 16 && r == 0xffff && a == 0 { 56 }
        else if bits == 16 && r == 0xff && a == 0xff00 { 49 }
        else { 0 }
    } else if pf_flags & 0x2 != 0 {
        if bits == 8 && a == 0xff { 65 } else { 0 }
    } else {
        0
    }
}

/// A format after the load flags' substitutions.
pub open spec fn load_format(f: u32, flags: u32) -> u32 {
    if flags & DDS_FLAGS_FORCE_RGB != 0 && (f == 87 || f == 88) {
        28
    } else if flags & DDS_FLAGS_FORCE_RGB != 0 && (f == 91 || f == 93) {
        29
    } else if flags & DDS_FLAGS_FORCE_RGB != 0 && (f == 90 || f == 92) {
        27
    } else if flags & DDS_FLAGS_NO_16BPP != 0 && (f == 85 || f == 86 || f == 115) {
        28
    } else {
        f
    }
}

/// Palettized formats, which have no supported layout here.
pub open spec fn palettized(f: u32) -> bool {
    111 <= f <= 114
}

pub open spec fn mips_of(count: int) -> usize {
    if count == 0 { 1 } else { count as usize }
}

/// The shape that a DDS file `s` describes under load flags `flags`, or
/// the error that reading it gives.
pub open spec fn dds_result(s: Seq<u8>, flags: u32) -> Result<TexMetadata, HResultError> {
    if s.len() < DDS_MIN_SIZE {
        Err(HResultError::ParseError)
    } else if le32(s, 0) != DDS_MAGIC || le32(s, 4) != 124 || le32(s, 76) != 32 {
        Err(HResultError::ParseError)
    } else {
        let hflags = le32(s, 8) as u32;
        let height = le32(s, 12) as usize;
        let width = le32(s, 16) as usize;
        let depth = le32(s, 24) as usize;
        let mips = mips_of(le32(s, 28));
        let pf_flags = le32(s, 80) as u32;
        let fourcc = le32(s, 84) as u32;
        if pf_flags & 0x4 != 0 && fourcc == FOURCC_DX10 {
            if s.len() < DDS_DX10_SIZE {
                Err(HResultError::ParseError)
            } else {
                let fmt = le32(s, 128) as u32;
                let dim = le32(s, 132);
                let misc = le32(s, 136) as u32;
                let array = le32(s, 140);
                let misc2 = le32(s, 144) as u32;
                if array == 0 {
                    Err(HResultError::ParseError)
                } else if bpp_of(fmt) == 0 || palettized(fmt) {
                    Err(HResultError::UnsupportedFormat)
                } else if dim == 2 {
                    if hflags & 0x2 != 0 && height != 1 {
                        Err(HResultError::ParseError)
                    } else {
                        Ok(TexMetadata {
                            width, height: 1, depth: 1, array_size: array as usize, mip_levels: mips,
                            misc_flags: 0, misc_flags2: misc2, format: load_format(fmt, flags),
                            dimension: TexDimension::Texture1D,
                        })
                    }
                } else if dim == 3 {
                    let cube = misc & 0x4 != 0;
                    if cube && array * 6 > usize::MAX {
                        Err(HResultError::ParseError)
                    } else {
                        Ok(TexMetadata {
                            width, height, depth: 1,
                            array_size: if cube { (array * 6) as usize } else { array as usize },
                            mip_levels: mips,
                            misc_flags: if cube { TEX_MISC_TEXTURECUBE } else { 0 },
                            misc_flags2: misc2, format: load_format(fmt, flags),
                            dimension: TexDimension::Texture2D,
                        })
                    }
                } else if dim == 4 {
                    if hflags & 0x80_0000 == 0 {
                        Err(HResultError::ParseError)
                    } else if array > 1 {
                        Err(HResultError::UnsupportedFormat)
                    } else {
                        Ok(TexMetadata {
                            width, height, depth, array_size: 1, mip_levels: mips,
                            misc_flags: 0, misc_flags2: misc2, format: load_format(fmt, flags),
                            dimension: TexDimension::Texture3D,
                        })
                    }
                } else {
                    Err(HResultError::ParseError)
                }
            }
        } else {
            let fmt = legacy_format(pf_flags, fourcc, le32(s, 88) as u32, le32(s, 92) as u32,
                le32(s, 96) as u32, le32(s, 100) as u32, le32(s, 104) as u32);
            let caps2 = le32(s, 112) as u32;
            let premultiplied = pf_flags & 0x4 != 0 && (fourcc == 0x3254_5844 || fourcc == 0x3454_5844);
            let misc2 = if premultiplied { TEX_ALPHA_MODE_PREMULTIPLIED } else { 0 };
            if hflags & 0x80_0000 == 0 && caps2 & 0x200 != 0 && caps2 & 0xfc00 != 0xfc00 {
                Err(HResultError::UnsupportedFormat)
            } else if fmt == 0 {
                Err(HResultError::UnsupportedFormat)
            } else if hflags & 0x80_0000 != 0 {
                Ok(TexMetadata {
                    width, height, depth, array_size: 1, mip_levels: mips, misc_flags: 0,
                    misc_flags2: misc2, format: load_format(fmt, flags),
                    dimension: TexDimension::Texture3D,
                })
            } else {
                let cube = caps2 & 0x200 != 0;
                Ok(TexMetadata {
                    width, height, depth: 1, array_size: if cube { 6 } else { 1 }, mip_levels: mips,
                    misc_flags: if cube { TEX_MISC_TEXTURECUBE } else { 0 },
                    misc_flags2: misc2, format: load_format(fmt, flags),
                    dimension: TexDimension::Texture2D,
                })
            }
        }
    }
}

fn legacy_format_of(pf_flags: u32, fourcc: u32, bits: u32, r: u32, g: u32, b: u32, a: u32) -> (f: u32)
    ensures
        f == legacy_format(pf_flags, fourcc, bits, r, g, b, a),
{
    if pf_flags & 0x4 != 0 {
        if fourcc == 0x3154_5844 { 71 }
        else if fourcc == 0x3254_5844 || fourcc == 0x3354_5844 { 74 }
        else if fourcc == 0x3454_5844 || fourcc == 0x3554_5844 { 77 }
        else if fourcc == 0x3149_5441 || fourcc == 0x5534_4342 { 80 }
        else if fourcc == 0x5334_4342 { 81 }
        else if fourcc == 0x3249_5441 || fourcc == 0x5535_4342 { 83 }
        else if fourcc == 0x5335_4342 { 84 }
        else if fourcc == 0x4742_4752 { 68 }
        else if fourcc == 0x4247_5247 { 69 }
        else if fourcc == 0x3259_5559 { 107 }
        else if fourcc == 36 { 11 }
        else if fourcc == 110 { 13 }
        else if fourcc == 111 { 54 }
        else if fourcc == 112 { 34 }
        else if fourcc == 113 { 10 }
        else if fourcc == 114 { 41 }
        else if fourcc == 115 { 16 }
        else if fourcc == 116 { 2 }
        else { 0 }
    } else if pf_flags & 0x40 != 0 {
        if bits == 32 {
            if r == 0xff && g == 0xff00 && b == 0xff_0000 && a == 0xff00_0000 { 28 }
            else if r == 0xff_0000 && g == 0xff00 && b == 0xff && a == 0xff00_0000 { 87 }
            else if r == 0xff_0000 && g == 0xff00 && b == 0xff && a == 0 { 88 }
            else if r == 0x3ff && g == 0xf_fc00 && b == 0x3ff0_0000 && a == 0xc000_0000 { 24 }
            else if r == 0xffff && g == 0xffff_0000 && b == 0 && a == 0 { 35 }
            else if r == 0xffff_ffff && g == 0 && b == 0 && a == 0 { 41 }
            else { 0 }
        } else if bits == 16 {
            if r == 0xf800 && g == 0x7e0 && b == 0x1f && a == 0 { 85 }
            else if r == 0x7c00 && g == 0x3e0 && b == 0x1f && a == 0x8000 { 86 }
            else if r == 0xf00 && g == 0xf0 && b == 0xf && a == 0xf000 { 115 }
            else { 0 }
        } else {
            0
        }
    } else if pf_flags & 0x2_0000 != 0 {
        if bits == 8 && r == 0xff && a == 0 { 61 }
        else if bits == 16 && r == 0xffff && a == 0 { 56 }
        else if bits == 16 && r == 0xff && a == 0xff00 { 49 }
        else { 0 }
    } else if pf_flags & 0x2 != 0 {
        if bits == 8 && a == 0xff { 65 } else { 0 }
    } else {
        0
    }
}

fn load_format_of(f: u32, flags: u32) -> (r: u32)
    ensures
        r == load_format(f, flags),
{
    if flags & DDS_FLAGS_FORCE_RGB != 0 && (f == 87 || f == 88) {
        28
    } else if flags & DDS_FLAGS_FORCE_RGB != 0 && (f == 91 || f == 93) {
        29
    } else if flags & DDS_FLAGS_FORCE_RGB != 0 && (f == 90 || f == 92) {
        27
    } else if flags & DDS_FLAGS_NO_16BPP != 0 && (f == 85 || f == 86 || f == 115) {
        28
    } else {
        f
    }
}

/// Reads the shape of the DDS file held in `source`. Fails with
/// `ParseError` on a truncated buffer, a bad signature or inconsistent
/// header fields, and with `UnsupportedFormat` where no format applies.
pub fn get_metadata_from_dds_memory(source: &[u8], flags: u32) -> (r: Result<TexMetadata, HResultError>)
    ensures
        r == dds_result(source@, flags),
        source@.len() < DDS_MIN_SIZE ==> r == Err::<TexMetadata, HResultError>(HResultError::ParseError),
{
    if source.len() < DDS_MIN_SIZE {
        return Err(HResultError::ParseError);
    }
    if read_u32(source, 0) != DDS_MAGIC || read_u32(source, 4) != 124 || read_u32(source, 76) != 32 {
        return Err(HResultError::ParseError);
    }
    let hflags = read_u32(source, 8);
    let height = read_u32(source, 12) as usize;
    let width = read_u32(source, 16) as usize;
    let depth = read_u32(source, 24) as usize;
    let mip_count = read_u32(source, 28);
    let mips: usize = if mip_count == 0 { 1 } else { mip_count as usize };
    let pf_flags = read_u32(source, 80);
    let fourcc = read_u32(source, 84);
    if pf_flags & 0x4 != 0 && fourcc == FOURCC_DX10 {
        if source.len() < DDS_DX10_SIZE {
            return Err(HResultError::ParseError);
        }
        let fmt = read_u32(source, 128);
        let dim = read_u32(source, 132);
        let misc = read_u32(source, 136);
        let array = read_u32(source, 140);
        let misc2 = read_u32(source, 144);
        if array == 0 {
            return Err(HResultError::ParseError);
        }
        if bits_per_pixel(fmt) == 0 || (111 <= fmt && fmt <= 114) {
            return Err(HResultError::UnsupportedFormat);
        }
        let format = load_format_of(fmt, flags);
        if dim == 2 {
            if hflags & 0x2 != 0 && height != 1 {
                return Err(HResultError::ParseError);
            }
            Ok(TexMetadata {
                width, height: 1, depth: 1, array_size: array as usize, mip_levels: mips,
                misc_flags: 0, misc_flags2: misc2, format, dimension: TexDimension::Texture1D,
            })
        } else if dim == 3 {
            let cube = misc & 0x4 != 0;
            let array_size = if cube {
                match (array as usize).checked_mul(6) {
                    None => {
                        return Err(HResultError::ParseError);
                    },
                    Some(n) => n,
                }
            } else {
                array as usize
            };
            Ok(TexMetadata {
                width, height, depth: 1, array_size, mip_levels: mips,
                misc_flags: if cube { TEX_MISC_TEXTURECUBE } else { 0 },
                misc_flags2: misc2, format, dimension: TexDimension::Texture2D,
            })
        } else if dim == 4 {
            if hflags & 0x80_0000 == 0 {
                return Err(HResultError::ParseError);
            }
            if array > 1 {
                return Err(HResultError::UnsupportedFormat);
            }
            Ok(TexMetadata {
                width, height, depth, array_size: 1, mip_levels: mips,
                misc_flags: 0, misc_flags2: misc2, format, dimension: TexDimension::Texture3D,
            })
        } else {
            Err(HResultError::ParseError)
        }
    } else {
        let fmt = legacy_format_of(pf_flags, fourcc, read_u32(source, 88), read_u32(source, 92),
            read_u32(source, 96), read_u32(source, 100), read_u32(source, 104));
        let caps2 = read_u32(source, 112);
        let premultiplied = pf_flags & 0x4 != 0 && (fourcc == 0x3254_5844 || fourcc == 0x3454_5844);
        let misc2 = if premultiplied { TEX_ALPHA_MODE_PREMULTIPLIED } else { 0 };
        if hflags & 0x80_0000 == 0 && caps2 & 0x200 != 0 && caps2 & 0xfc00 != 0xfc00 {
            return Err(HResultError::UnsupportedFormat);
        }
        if fmt == 0 {
            return Err(HResultError::UnsupportedFormat);
        }
        let format = load_format_of(fmt, flags);
        if hflags & 0x80_0000 != 0 {
            Ok(TexMetadata {
                width, height, depth, array_size: 1, mip_levels: mips, misc_flags: 0,
                misc_flags2: misc2, format, dimension: TexDimension::Texture3D,
            })
        } else {
            let cube = caps2 & 0x200 != 0;
            Ok(TexMetadata {
                width, height, depth: 1, array_size: if cube { 6 } else { 1 }, mip_levels: mips,
                misc_flags: if cube { TEX_MISC_TEXTURECUBE } else { 0 },
                misc_flags2: misc2, format, dimension: TexDimension::Texture2D,
            })
        }
    }
}

} // verus!
