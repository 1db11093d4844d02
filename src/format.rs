//! Pixel-format catalog: classification predicates, bit sizes, format
//! conversions and pitch computation, all driven by the DXGI format number.
use vstd::prelude::*;
use crate::error::HResultError;

verus! {

/// A DXGI format number. Numbers outside the catalog are "unknown".
pub type DxgiFormat = u32;

pub const DXGI_FORMAT_UNKNOWN: DxgiFormat = 0;
pub const DXGI_FORMAT_R32G32B32A32_TYPELESS: DxgiFormat = 1;
pub const DXGI_FORMAT_R32G32B32A32_FLOAT: DxgiFormat = 2;
pub const DXGI_FORMAT_R16G16B16A16_UNORM: DxgiFormat = 11;
pub const DXGI_FORMAT_R8G8B8A8_TYPELESS: DxgiFormat = 27;
pub const DXGI_FORMAT_R8G8B8A8_UNORM: DxgiFormat = 28;
pub const DXGI_FORMAT_R8G8B8A8_UNORM_SRGB: DxgiFormat = 29;
pub const DXGI_FORMAT_R8G8B8A8_UINT: DxgiFormat = 30;
pub const DXGI_FORMAT_R32_FLOAT: DxgiFormat = 41;
pub const DXGI_FORMAT_R8_UNORM: DxgiFormat = 61;
pub const DXGI_FORMAT_A8_UNORM: DxgiFormat = 65;
pub const DXGI_FORMAT_BC1_UNORM: DxgiFormat = 71;
pub const DXGI_FORMAT_BC3_UNORM: DxgiFormat = 77;
pub const DXGI_FORMAT_B5G6R5_UNORM: DxgiFormat = 85;
pub const DXGI_FORMAT_B5G5R5A1_UNORM: DxgiFormat = 86;
pub const DXGI_FORMAT_B8G8R8A8_UNORM: DxgiFormat = 87;
pub const DXGI_FORMAT_B8G8R8X8_UNORM: DxgiFormat = 88;
pub const DXGI_FORMAT_B8G8R8A8_UNORM_SRGB: DxgiFormat = 91;
pub const DXGI_FORMAT_BC7_UNORM: DxgiFormat = 98;
pub const DXGI_FORMAT_NV12: DxgiFormat = 103;
pub const DXGI_FORMAT_YUY2: DxgiFormat = 107;

/// Pitch flags: no special alignment.
pub const CP_FLAGS_NONE: u32 = 0x0;
/// Pitch flags: rows padded to a multiple of 4 bytes.
pub const CP_FLAGS_LEGACY_DWORD: u32 = 0x1;
/// Pitch flags: rows padded to a multiple of 16 bytes.
pub const CP_FLAGS_PARAGRAPH: u32 = 0x2;
/// Pitch flags: rows padded to a multiple of 32 bytes.
pub const CP_FLAGS_YMM: u32 = 0x4;
/// Pitch flags: rows padded to a multiple of 64 bytes.
pub const CP_FLAGS_ZMM: u32 = 0x8;
/// Pitch flags: rows padded to a multiple of 4096 bytes.
pub const CP_FLAGS_PAGE4K: u32 = 0x200;

/// Bits per pixel of a format; 0 for a format outside the catalog.
pub open spec fn bpp_of(f: DxgiFormat) -> nat {
    if (1 <= f && f <= 4) {
        128
    } else if (5 <= f && f <= 8) {
        96
    } else if (9 <= f && f <= 22) {
        64
    } else if (23 <= f && f <= 47) {
        32
    } else if (48 <= f && f <= 59) {
        16
    } else if (60 <= f && f <= 65) {
        8
    } else if f == 66 {
        1
    } else if (67 <= f && f <= 69) {
        32
    } else if (70 <= f && f <= 72) {
        4
    } else if (73 <= f && f <= 78) {
        8
    } else if (79 <= f && f <= 81) {
        4
    } else if (82 <= f && f <= 84) {
        8
    } else if (85 <= f && f <= 86) {
        16
    } else if (87 <= f && f <= 93) {
        32
    } else if (94 <= f && f <= 99) {
        8
    } else if (100 <= f && f <= 101) {
        32
    } else if f == 102 {
        64
    } else if f == 103 {
        12
    } else if (104 <= f && f <= 105) {
        24
    } else if f == 106 {
        12
    } else if f == 107 {
        32
    } else if (108 <= f && f <= 109) {
        64
    } else if f == 110 {
        12
    } else if (111 <= f && f <= 113) {
        8
    } else if (114 <= f && f <= 115) {
        16
    } else if (130 <= f && f <= 131) {
        16
    } else if f == 132 {
        24
    } else {
        0
    }
}

/// Two-pixel packed formats (4:2:2 video and the RGBG layouts).
pub open spec fn packed_spec(f: DxgiFormat) -> bool {
    f == 68 || f == 69 || (107 <= f <= 109)
}

/// Video formats.
pub open spec fn video_spec(f: DxgiFormat) -> bool {
    (100 <= f <= 114) || (130 <= f <= 132)
}

/// Planar video formats.
pub open spec fn planar_spec(f: DxgiFormat) -> bool {
    (103 <= f <= 106) || f == 110 || (130 <= f <= 132)
}

/// Depth-stencil formats and their typeless relatives.
pub open spec fn depth_stencil_spec(f: DxgiFormat) -> bool {
    (19 <= f <= 22) || f == 40 || (44 <= f <= 47) || f == 55
}

/// Formats whose channels are stored blue first.
pub open spec fn bgr_spec(f: DxgiFormat) -> bool {
    (85 <= f <= 88) || (90 <= f <= 93) || f == 115
}

/// Fully typeless formats.
pub open spec fn typeless_spec(f: DxgiFormat) -> bool {
    f == 1 || f == 5 || f == 9 || f == 15 || f == 19 || f == 23 || f == 27 || f == 33
        || f == 39 || f == 44 || f == 48 || f == 53 || f == 60 || f == 70 || f == 73
        || f == 76 || f == 79 || f == 82 || f == 90 || f == 92 || f == 94 || f == 97
}

/// Formats that are typeless in one of their planes only.
pub open spec fn partial_typeless_spec(f: DxgiFormat) -> bool {
    f == 21 || f == 22 || f == 46 || f == 47
}

/// Formats with an alpha channel.
pub open spec fn alpha_spec(f: DxgiFormat) -> bool {
    (1 <= f <= 4) || (9 <= f <= 14) || (23 <= f <= 25) || (27 <= f <= 32) || f == 65
        || (70 <= f <= 78) || f == 86 || f == 87 || (89 <= f <= 91) || (97 <= f <= 102)
        || f == 111 || f == 112 || f == 114 || f == 115
}

/// Block-compressed formats with 8-byte 4x4 blocks.
pub open spec fn bc8_spec(f: DxgiFormat) -> bool {
    (70 <= f <= 72) || (79 <= f <= 81)
}

/// Block-compressed formats with 16-byte 4x4 blocks.
pub open spec fn bc16_spec(f: DxgiFormat) -> bool {
    (73 <= f <= 78) || (82 <= f <= 84) || (94 <= f <= 99)
}

pub open spec fn compressed_spec(f: DxgiFormat) -> bool {
    bc8_spec(f) || bc16_spec(f)
}

/// The sRGB variant of a format, or the format itself.
pub open spec fn srgb_of(f: DxgiFormat) -> DxgiFormat {
    if f == 28 {
        29
    } else if f == 71 {
        72
    } else if f == 74 {
        75
    } else if f == 77 {
        78
    } else if f == 87 {
        91
    } else if f == 88 {
        93
    } else if f == 98 {
        99
    } else {
        f
    }
}

/// The linear variant of an sRGB format, or the format itself.
pub open spec fn linear_of(f: DxgiFormat) -> DxgiFormat {
    if f == 29 {
        28
    } else if f == 72 {
        71
    } else if f == 75 {
        74
    } else if f == 78 {
        77
    } else if f == 91 {
        87
    } else if f == 93 {
        88
    } else if f == 99 {
        98
    } else {
        f
    }
}

/// The typeless format of the same bit layout, or the format itself.
pub open spec fn typeless_of(f: DxgiFormat) -> DxgiFormat {
    if (2 <= f && f <= 4) {
        1
    } else if (6 <= f && f <= 8) {
        5
    } else if (10 <= f && f <= 14) {
        9
    } else if (16 <= f && f <= 18) {
        15
    } else if (24 <= f && f <= 25) {
        23
    } else if (28 <= f && f <= 32) {
        27
    } else if (34 <= f && f <= 38) {
        33
    } else if (40 <= f && f <= 43) {
        39
    } else if (49 <= f && f <= 52) {
        48
    } else if (54 <= f && f <= 59) {
        53
    } else if (61 <= f && f <= 64) {
        60
    } else if (71 <= f && f <= 72) {
        70
    } else if (74 <= f && f <= 75) {
        73
    } else if (77 <= f && f <= 78) {
        76
    } else if (80 <= f && f <= 81) {
        79
    } else if (83 <= f && f <= 84) {
        82
    } else if f == 87 || f == 91 {
        90
    } else if f == 88 || f == 93 {
        92
    } else if (95 <= f && f <= 96) {
        94
    } else if (98 <= f && f <= 99) {
        97
    } else {
        f
    }
}

/// The typeless format of a UNORM format, or the format itself.
pub open spec fn typeless_unorm_of(f: DxgiFormat) -> DxgiFormat {
    if f == 11 {
        9
    } else if f == 24 {
        23
    } else if f == 28 {
        27
    } else if f == 35 {
        33
    } else if f == 49 {
        48
    } else if f == 56 {
        53
    } else if f == 61 {
        60
    } else if f == 71 {
        70
    } else if f == 74 {
        73
    } else if f == 77 {
        76
    } else if f == 80 {
        79
    } else if f == 83 {
        82
    } else if f == 87 {
        90
    } else if f == 88 {
        92
    } else if f == 98 {
        97
    } else {
        f
    }
}

/// The typeless format of a FLOAT format, or the format itself.
pub open spec fn typeless_float_of(f: DxgiFormat) -> DxgiFormat {
    if f == 2 {
        1
    } else if f == 6 {
        5
    } else if f == 10 {
        9
    } else if f == 16 {
        15
    } else if f == 34 {
        33
    } else if f == 41 {
        39
    } else if f == 54 {
        53
    } else {
        f
    }
}

/// The numeric interpretation of a format's channels.
#[derive(Debug, Clone, Copy, PartialEq, Eq, Structural)]
pub enum FormatType {
    Unknown,
    Unorm,
    Snorm,
    Uint,
    Sint,
    Float,
    SharedExp,
}

pub open spec fn data_type_of(f: DxgiFormat) -> FormatType {
    if f == 2 || f == 6 || f == 10 || f == 16 || f == 20 || f == 26 || f == 34 || f == 40 || f == 41 || f == 54 || f == 95 || f == 96 {
        FormatType::Float
    } else if f == 11 || f == 24 || f == 28 || f == 29 || f == 35 || f == 45 || f == 49 || f == 55 || f == 56 || f == 61 || f == 65 || f == 66 || f == 68 || f == 69 || f == 71 || f == 72 || f == 74 || f == 75 || f == 77 || f == 78 || f == 80 || f == 83 || (85 <= f && f <= 89) || f == 91 || f == 93 || f == 98 || f == 99 || f == 115 {
        FormatType::Unorm
    } else if f == 13 || f == 31 || f == 37 || f == 51 || f == 58 || f == 63 || f == 81 || f == 84 {
        FormatType::Snorm
    } else if f == 3 || f == 7 || f == 12 || f == 17 || f == 25 || f == 30 || f == 36 || f == 42 || f == 50 || f == 57 || f == 62 {
        FormatType::Uint
    } else if f == 4 || f == 8 || f == 14 || f == 18 || f == 32 || f == 38 || f == 43 || f == 52 || f == 59 || f == 64 {
        FormatType::Sint
    } else if f == 67 {
        FormatType::SharedExp
    } else {
        FormatType::Unknown
    }
}

pub fn is_packed(f: DxgiFormat) -> (r: bool)
    ensures
        r == packed_spec(f),
{
    f == 68 || f == 69 || (107 <= f && f <= 109)
}

pub fn is_video(f: DxgiFormat) -> (r: bool)
    ensures
        r == video_spec(f),
{
    (100 <= f && f <= 114) || (130 <= f && f <= 132)
}

pub fn is_planar(f: DxgiFormat) -> (r: bool)
    ensures
        r == planar_spec(f),
{
    (103 <= f && f <= 106) || f == 110 || (130 <= f && f <= 132)
}

pub fn is_depth_stencil(f: DxgiFormat) -> (r: bool)
    ensures
        r == depth_stencil_spec(f),
{
    (19 <= f && f <= 22) || f == 40 || (44 <= f && f <= 47) || f == 55
}

pub fn is_bgr(f: DxgiFormat) -> (r: bool)
    ensures
        r == bgr_spec(f),
{
    (85 <= f && f <= 88) || (90 <= f && f <= 93) || f == 115
}

pub fn is_compressed(f: DxgiFormat) -> (r: bool)
    ensures
        r == compressed_spec(f),
{
    (70 <= f && f <= 84) || (94 <= f && f <= 99)
}

/// Whether a format is typeless; with `partial_typeless`, formats typeless
/// in one plane only count too.
pub fn is_typeless(f: DxgiFormat, partial_typeless: bool) -> (r: bool)
    ensures
        r == (typeless_spec(f) || (partial_typeless && partial_typeless_spec(f))),
{
    if f == 1 || f == 5 || f == 9 || f == 15 || f == 19 || f == 23 || f == 27 || f == 33 || f == 39 || f == 44 || f == 48 || f == 53 || f == 60 || f == 70 || f == 73 || f == 76 || f == 79 || f == 82 || f == 90 || f == 92 || f == 94 || f == 97 {
        true
    } else if f == 21 || f == 22 || f == 46 || f == 47 {
        partial_typeless
    } else {
        false
    }
}

pub fn has_alpha(f: DxgiFormat) -> (r: bool)
    ensures
        r == alpha_spec(f),
{
    if (1 <= f && f <= 4) || (9 <= f && f <= 14) || (23 <= f && f <= 25) || (27 <= f && f <= 32) || f == 65 || (70 <= f && f <= 78) || f == 86 || f == 87 || (89 <= f && f <= 91) || (97 <= f && f <= 102) || f == 111 || f == 112 || f == 114 || f == 115 {
        true
    } else {
        false
    }
}

/// Bits per pixel; 0 for a format outside the catalog.
pub fn bits_per_pixel(f: DxgiFormat) -> (r: usize)
    ensures
        r == bpp_of(f),
{
    if (1 <= f && f <= 4) {
        128
    } else if (5 <= f && f <= 8) {
        96
    } else if (9 <= f && f <= 22) {
        64
    } else if (23 <= f && f <= 47) {
        32
    } else if (48 <= f && f <= 59) {
        16
    } else if (60 <= f && f <= 65) {
        8
    } else if f == 66 {
        1
    } else if (67 <= f && f <= 69) {
        32
    } else if (70 <= f && f <= 72) {
        4
    } else if (73 <= f && f <= 78) {
        8
    } else if (79 <= f && f <= 81) {
        4
    } else if (82 <= f && f <= 84) {
        8
    } else if (85 <= f && f <= 86) {
        16
    } else if (87 <= f && f <= 93) {
        32
    } else if (94 <= f && f <= 99) {
        8
    } else if (100 <= f && f <= 101) {
        32
    } else if f == 102 {
        64
    } else if f == 103 {
        12
    } else if (104 <= f && f <= 105) {
        24
    } else if f == 106 {
        12
    } else if f == 107 {
        32
    } else if (108 <= f && f <= 109) {
        64
    } else if f == 110 {
        12
    } else if (111 <= f && f <= 113) {
        8
    } else if (114 <= f && f <= 115) {
        16
    } else if (130 <= f && f <= 131) {
        16
    } else if f == 132 {
        24
    } else {
        0
    }
}

/// Bits of the widest color channel; 0 for a format outside the catalog or
/// without color channels of a fixed width (palettized formats).
pub open spec fn bpc_of(f: DxgiFormat) -> nat {
    if (1 <= f && f <= 8) || (15 <= f && f <= 22) || (39 <= f && f <= 43) {
        32
    } else if 44 <= f && f <= 47 {
        24
    } else if (9 <= f && f <= 14) || (33 <= f && f <= 38) || (53 <= f && f <= 59) || (94 <= f
        && f <= 96) || f == 102 || f == 105 || f == 109 {
        16
    } else if f == 67 {
        14
    } else if f == 26 {
        11
    } else if (23 <= f && f <= 25) || f == 89 || f == 101 || f == 104 || f == 108 {
        10
    } else if (27 <= f && f <= 32) || (48 <= f && f <= 52) || (60 <= f && f <= 65) || f == 68
        || f == 69 || (79 <= f && f <= 84) || (87 <= f && f <= 88) || (90 <= f && f <= 93) || f
        == 100 || f == 103 || (106 <= f && f <= 107) || f == 110 || (130 <= f && f <= 132) {
        8
    } else if 97 <= f && f <= 99 {
        7
    } else if (70 <= f && f <= 78) || f == 85 {
        6
    } else if f == 86 {
        5
    } else if f == 115 {
        4
    } else if f == 66 {
        1
    } else {
        0
    }
}

pub fn bits_per_color(f: DxgiFormat) -> (r: usize)
    ensures
        r == bpc_of(f),
{
    if (1 <= f && f <= 8) || (15 <= f && f <= 22) || (39 <= f && f <= 43) {
        32
    } else if 44 <= f && f <= 47 {
        24
    } else if (9 <= f && f <= 14) || (33 <= f && f <= 38) || (53 <= f && f <= 59) || (94 <= f
        && f <= 96) || f == 102 || f == 105 || f == 109 {
        16
    } else if f == 67 {
        14
    } else if f == 26 {
        11
    } else if (23 <= f && f <= 25) || f == 89 || f == 101 || f == 104 || f == 108 {
        10
    } else if (27 <= f && f <= 32) || (48 <= f && f <= 52) || (60 <= f && f <= 65) || f == 68
        || f == 69 || (79 <= f && f <= 84) || (87 <= f && f <= 88) || (90 <= f && f <= 93) || f
        == 100 || f == 103 || (106 <= f && f <= 107) || f == 110 || (130 <= f && f <= 132) {
        8
    } else if 97 <= f && f <= 99 {
        7
    } else if (70 <= f && f <= 78) || f == 85 {
        6
    } else if f == 86 {
        5
    } else if f == 115 {
        4
    } else if f == 66 {
        1
    } else {
        0
    }
}

pub fn format_data_type(f: DxgiFormat) -> (r: FormatType)
    ensures
        r == data_type_of(f),
{
    if f == 2 || f == 6 || f == 10 || f == 16 || f == 20 || f == 26 || f == 34 || f == 40 || f == 41 || f == 54 || f == 95 || f == 96 {
        FormatType::Float
    } else if f == 11 || f == 24 || f == 28 || f == 29 || f == 35 || f == 45 || f == 49 || f == 55 || f == 56 || f == 61 || f == 65 || f == 66 || f == 68 || f == 69 || f == 71 || f == 72 || f == 74 || f == 75 || f == 77 || f == 78 || f == 80 || f == 83 || (85 <= f && f <= 89) || f == 91 || f == 93 || f == 98 || f == 99 || f == 115 {
        FormatType::Unorm
    } else if f == 13 || f == 31 || f == 37 || f == 51 || f == 58 || f == 63 || f == 81 || f == 84 {
        FormatType::Snorm
    } else if f == 3 || f == 7 || f == 12 || f == 17 || f == 25 || f == 30 || f == 36 || f == 42 || f == 50 || f == 57 || f == 62 {
        FormatType::Uint
    } else if f == 4 || f == 8 || f == 14 || f == 18 || f == 32 || f == 38 || f == 43 || f == 52 || f == 59 || f == 64 {
        FormatType::Sint
    } else if f == 67 {
        FormatType::SharedExp
    } else {
        FormatType::Unknown
    }
}

pub fn make_srgb(f: DxgiFormat) -> (r: DxgiFormat)
    ensures
        r == srgb_of(f),
{
    if f == 28 {
        29
    } else if f == 71 {
        72
    } else if f == 74 {
        75
    } else if f == 77 {
        78
    } else if f == 87 {
        91
    } else if f == 88 {
        93
    } else if f == 98 {
        99
    } else {
        f
    }
}

pub fn make_linear(f: DxgiFormat) -> (r: DxgiFormat)
    ensures
        r == linear_of(f),
{
    if f == 29 {
        28
    } else if f == 72 {
        71
    } else if f == 75 {
        74
    } else if f == 78 {
        77
    } else if f == 91 {
        87
    } else if f == 93 {
        88
    } else if f == 99 {
        98
    } else {
        f
    }
}

pub fn make_typeless(f: DxgiFormat) -> (r: DxgiFormat)
    ensures
        r == typeless_of(f),
{
    if (2 <= f && f <= 4) {
        1
    } else if (6 <= f && f <= 8) {
        5
    } else if (10 <= f && f <= 14) {
        9
    } else if (16 <= f && f <= 18) {
        15
    } else if (24 <= f && f <= 25) {
        23
    } else if (28 <= f && f <= 32) {
        27
    } else if (34 <= f && f <= 38) {
        33
    } else if (40 <= f && f <= 43) {
        39
    } else if (49 <= f && f <= 52) {
        48
    } else if (54 <= f && f <= 59) {
        53
    } else if (61 <= f && f <= 64) {
        60
    } else if (71 <= f && f <= 72) {
        70
    } else if (74 <= f && f <= 75) {
        73
    } else if (77 <= f && f <= 78) {
        76
    } else if (80 <= f && f <= 81) {
        79
    } else if (83 <= f && f <= 84) {
        82
    } else if f == 87 || f == 91 {
        90
    } else if f == 88 || f == 93 {
        92
    } else if (95 <= f && f <= 96) {
        94
    } else if (98 <= f && f <= 99) {
        97
    } else {
        f
    }
}

pub fn make_typeless_unorm(f: DxgiFormat) -> (r: DxgiFormat)
    ensures
        r == typeless_unorm_of(f),
{
    if f == 11 {
        9
    } else if f == 24 {
        23
    } else if f == 28 {
        27
    } else if f == 35 {
        33
    } else if f == 49 {
        48
    } else if f == 56 {
        53
    } else if f == 61 {
        60
    } else if f == 71 {
        70
    } else if f == 74 {
        73
    } else if f == 77 {
        76
    } else if f == 80 {
        79
    } else if f == 83 {
        82
    } else if f == 87 {
        90
    } else if f == 88 {
        92
    } else if f == 98 {
        97
    } else {
        f
    }
}

pub fn make_typeless_float(f: DxgiFormat) -> (r: DxgiFormat)
    ensures
        r == typeless_float_of(f),
{
    if f == 2 {
        1
    } else if f == 6 {
        5
    } else if f == 10 {
        9
    } else if f == 16 {
        15
    } else if f == 34 {
        33
    } else if f == 41 {
        39
    } else if f == 54 {
        53
    } else {
        f
    }
}

/// Making a format typeless keeps its bits per pixel.
pub proof fn lemma_typeless_keeps_bpp(f: DxgiFormat)
    ensures
        bpp_of(typeless_of(f)) == bpp_of(f),
{
}

/// The same holds of the UNORM and FLOAT typeless mappings.
pub proof fn lemma_typeless_variants_keep_bpp(f: DxgiFormat)
    ensures
        bpp_of(typeless_unorm_of(f)) == bpp_of(f),
        bpp_of(typeless_float_of(f)) == bpp_of(f),
        bpp_of(srgb_of(f)) == bpp_of(f),
        bpp_of(linear_of(f)) == bpp_of(f),
{
}


/// Bytes in one row of pixels (or one row of 4x4 blocks) of a `w`-wide image.
pub open spec fn row_pitch_of(f: DxgiFormat, w: int, flags: u32) -> int {
    if bc8_spec(f) {
        if w == 0 { 8 } else { ((w + 3) / 4) * 8 }
    } else if bc16_spec(f) {
        if w == 0 { 16 } else { ((w + 3) / 4) * 16 }
    } else if f == 68 || f == 69 || f == 107 || f == 104 || f == 105 {
        ((w + 1) / 2) * 4
    } else if f == 108 || f == 109 {
        ((w + 1) / 2) * 8
    } else if f == 103 || f == 106 || f == 130 {
        ((w + 1) / 2) * 2
    } else if f == 110 {
        ((w + 3) / 4) * 4
    } else if f == 131 || f == 132 {
        w
    } else {
        let bits = w * bpp_of(f);
        if flags & CP_FLAGS_PAGE4K != 0 {
            ((bits + 32767) / 32768) * 4096
        } else if flags & CP_FLAGS_ZMM != 0 {
            ((bits + 511) / 512) * 64
        } else if flags & CP_FLAGS_YMM != 0 {
            ((bits + 255) / 256) * 32
        } else if flags & CP_FLAGS_PARAGRAPH != 0 {
            ((bits + 127) / 128) * 16
        } else if flags & CP_FLAGS_LEGACY_DWORD != 0 {
            ((bits + 31) / 32) * 4
        } else {
            (bits + 7) / 8
        }
    }
}

/// Number of pitch rows in an `h`-high image: block rows for compressed
/// formats, all planes' rows for planar formats.
pub open spec fn scanlines_of(f: DxgiFormat, h: int) -> int {
    if compressed_spec(f) {
        if h == 0 { 1 } else { (h + 3) / 4 }
    } else if f == 103 || f == 104 || f == 105 || f == 106 {
        h + (h + 1) / 2
    } else if f == 110 || f == 130 {
        h * 2
    } else if f == 131 {
        h + ((h + 1) / 2) * 2
    } else if f == 132 {
        h + (h / 2) * 4
    } else {
        h
    }
}

/// Bytes in one whole `w` x `h` image.
pub open spec fn slice_pitch_of(f: DxgiFormat, w: int, h: int, flags: u32) -> int {
    row_pitch_of(f, w, flags) * scanlines_of(f, h)
}

/// Whether both pitches of a `w` x `h` image fit in `usize`.
pub open spec fn pitch_fits(f: DxgiFormat, w: int, h: int, flags: u32) -> bool {
    row_pitch_of(f, w, flags) <= usize::MAX && slice_pitch_of(f, w, h, flags) <= usize::MAX
}

/// Number of pitch rows in an image of height `height`.
pub fn compute_scanlines(f: DxgiFormat, height: usize) -> (r: usize)
    requires
        scanlines_of(f, height as int) <= usize::MAX,
    ensures
        r == scanlines_of(f, height as int),
{
    scanlines_wide(f, height) as usize
}

/// Number of pitch rows, in a type wide enough for every height.
pub fn scanlines_wide(f: DxgiFormat, height: usize) -> (r: u128)
    ensures
        r == scanlines_of(f, height as int),
{
    let h = height as u128;
    let r: u128 = if is_compressed(f) {
        if h == 0 { 1 } else { (h + 3) / 4 }
    } else if f == 103 || f == 104 || f == 105 || f == 106 {
        h + (h + 1) / 2
    } else if f == 110 || f == 130 {
        h * 2
    } else if f == 131 {
        h + ((h + 1) / 2) * 2
    } else if f == 132 {
        h + (h / 2) * 4
    } else {
        h
    };
    r
}

fn compute_row_pitch(f: DxgiFormat, width: usize, flags: u32) -> (r: u128)
    requires
        bpp_of(f) > 0,
    ensures
        r == row_pitch_of(f, width as int, flags),
{
    let w = width as u128;
    if 70 <= f && f <= 72 || 79 <= f && f <= 81 {
        if w == 0 { 8 } else { ((w + 3) / 4) * 8 }
    } else if is_compressed(f) {
        if w == 0 { 16 } else { ((w + 3) / 4) * 16 }
    } else if f == 68 || f == 69 || f == 107 || f == 104 || f == 105 {
        ((w + 1) / 2) * 4
    } else if f == 108 || f == 109 {
        ((w + 1) / 2) * 8
    } else if f == 103 || f == 106 || f == 130 {
        ((w + 1) / 2) * 2
    } else if f == 110 {
        ((w + 3) / 4) * 4
    } else if f == 131 || f == 132 {
        w
    } else {
        let bpp = bits_per_pixel(f) as u128;
        assert(w * bpp <= 0x1_0000_0000_0000_0000u128 * 128) by (nonlinear_arith)
            requires
                w <= 0xffff_ffff_ffff_ffffu128,
                bpp <= 128,
        ;
        let bits = w * bpp;
        if flags & CP_FLAGS_PAGE4K != 0 {
            ((bits + 32767) / 32768) * 4096
        } else if flags & CP_FLAGS_ZMM != 0 {
            ((bits + 511) / 512) * 64
        } else if flags & CP_FLAGS_YMM != 0 {
            ((bits + 255) / 256) * 32
        } else if flags & CP_FLAGS_PARAGRAPH != 0 {
            ((bits + 127) / 128) * 16
        } else if flags & CP_FLAGS_LEGACY_DWORD != 0 {
            ((bits + 31) / 32) * 4
        } else {
            (bits + 7) / 8
        }
    }
}

/// Row and slice pitch of a `width` x `height` image of format `f`.
///
/// Fails with `UnsupportedFormat` for a format outside the catalog and with
/// `ArithmeticOverflow` when either pitch exceeds `usize`.
pub fn compute_pitch(f: DxgiFormat, width: usize, height: usize, flags: u32) -> (r: Result<
    (usize, usize),
    HResultError,
>)
    ensures
        bpp_of(f) == 0 ==> r == Err::<(usize, usize), HResultError>(HResultError::UnsupportedFormat),
        bpp_of(f) > 0 && !pitch_fits(f, width as int, height as int, flags) ==> r == Err::<
            (usize, usize),
            HResultError,
        >(HResultError::ArithmeticOverflow),
        bpp_of(f) > 0 && pitch_fits(f, width as int, height as int, flags) ==> r == Ok::<
            (usize, usize),
            HResultError,
        >(
            (
                row_pitch_of(f, width as int, flags) as usize,
                slice_pitch_of(f, width as int, height as int, flags) as usize,
            ),
        ),
{
    if bits_per_pixel(f) == 0 {
        return Err(HResultError::UnsupportedFormat);
    }
    let row = compute_row_pitch(f, width, flags);
    if row > usize::MAX as u128 {
        return Err(HResultError::ArithmeticOverflow);
    }
    let h = height as u128;
    let rows: u128 = if is_compressed(f) {
        if h == 0 { 1 } else { (h + 3) / 4 }
    } else if f == 103 || f == 104 || f == 105 || f == 106 {
        h + (h + 1) / 2
    } else if f == 110 || f == 130 {
        h * 2
    } else if f == 131 {
        h + ((h + 1) / 2) * 2
    } else if f == 132 {
        h + (h / 2) * 4
    } else {
        h
    };
    assert(rows == scanlines_of(f, height as int));
    match row.checked_mul(rows) {
        None => Err(HResultError::ArithmeticOverflow),
        Some(slice) => {
            if slice > usize::MAX as u128 {
                Err(HResultError::ArithmeticOverflow)
            } else {
                Ok((row as usize, slice as usize))
            }
        },
    }
}


/// Formats that share a pitch rule share a key: block-compressed formats
/// one key per block size, the two-pixel packed formats one key per pair
/// size, and the standard formats 0. Each planar format has its own key.
pub open spec fn layout_key(f: DxgiFormat) -> int {
    if bc8_spec(f) {
        1
    } else if bc16_spec(f) {
        2
    } else if f == 68 || f == 69 || f == 107 {
        3
    } else if f == 108 || f == 109 {
        4
    } else if (103 <= f <= 106) || f == 110 || (130 <= f <= 132) {
        1000 + f
    } else {
        0
    }
}

/// Two catalogued formats with the same bits per pixel and block geometry.
pub open spec fn same_layout(a: DxgiFormat, b: DxgiFormat) -> bool {
    bpp_of(a) > 0 && bpp_of(a) == bpp_of(b) && layout_key(a) == layout_key(b)
}

fn layout_key_of(f: DxgiFormat) -> (r: u64)
    ensures
        r == layout_key(f),
{
    if 70 <= f && f <= 72 || 79 <= f && f <= 81 {
        1
    } else if is_compressed(f) {
        2
    } else if f == 68 || f == 69 || f == 107 {
        3
    } else if f == 108 || f == 109 {
        4
    } else if (103 <= f && f <= 106) || f == 110 || (130 <= f && f <= 132) {
        1000 + f as u64
    } else {
        0
    }
}

pub fn has_same_layout(a: DxgiFormat, b: DxgiFormat) -> (r: bool)
    ensures
        r == same_layout(a, b),
{
    let ba = bits_per_pixel(a);
    if ba == 0 || ba != bits_per_pixel(b) {
        return false;
    }
    layout_key_of(a) == layout_key_of(b)
}

/// Formats of the same layout have the same pitches for every size.
pub proof fn lemma_same_layout_same_pitch(a: DxgiFormat, b: DxgiFormat, w: int, h: int, flags: u32)
    requires
        same_layout(a, b),
    ensures
        row_pitch_of(a, w, flags) == row_pitch_of(b, w, flags),
        scanlines_of(a, h) == scanlines_of(b, h),
        slice_pitch_of(a, w, h, flags) == slice_pitch_of(b, w, h, flags),
{
}


/// A catalogued format has a row pitch of at least one byte for every
/// width of at least 1.
pub proof fn lemma_row_pitch_positive(f: DxgiFormat, w: int, flags: u32)
    requires
        bpp_of(f) > 0,
        w >= 1,
    ensures
        row_pitch_of(f, w, flags) >= 1,
{
    let b = bpp_of(f) as int;
    assert(w * b >= 1) by (nonlinear_arith)
        requires w >= 1, b >= 1;
}

} // verus!
