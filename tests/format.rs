use directxtex::error::HResultError;
use directxtex::format::{
    bits_per_color, bits_per_pixel, compute_pitch, compute_scanlines, format_data_type, has_alpha, is_bgr,
    is_compressed, is_depth_stencil, is_packed, is_planar, is_typeless, is_video, make_linear,
    make_srgb, make_typeless, make_typeless_float, make_typeless_unorm, FormatType,
    CP_FLAGS_LEGACY_DWORD, CP_FLAGS_NONE, CP_FLAGS_PARAGRAPH, DXGI_FORMAT_B8G8R8A8_UNORM,
    DXGI_FORMAT_B8G8R8A8_UNORM_SRGB, DXGI_FORMAT_BC1_UNORM, DXGI_FORMAT_BC3_UNORM,
    DXGI_FORMAT_BC7_UNORM, DXGI_FORMAT_NV12, DXGI_FORMAT_R32G32B32A32_FLOAT,
    DXGI_FORMAT_R32G32B32A32_TYPELESS, DXGI_FORMAT_R8G8B8A8_TYPELESS, DXGI_FORMAT_R8G8B8A8_UNORM,
    DXGI_FORMAT_R8G8B8A8_UNORM_SRGB, DXGI_FORMAT_R8_UNORM, DXGI_FORMAT_UNKNOWN, DXGI_FORMAT_YUY2,
};

#[test]
fn typeless_keeps_bits_per_pixel() {
    for f in 0..200u32 {
        assert_eq!(bits_per_pixel(make_typeless(f)), bits_per_pixel(f), "format {}", f);
        assert_eq!(bits_per_pixel(make_typeless_unorm(f)), bits_per_pixel(f));
        assert_eq!(bits_per_pixel(make_typeless_float(f)), bits_per_pixel(f));
    }
    assert_eq!(make_typeless(DXGI_FORMAT_R8G8B8A8_UNORM_SRGB), DXGI_FORMAT_R8G8B8A8_TYPELESS);
    assert_eq!(make_typeless_float(DXGI_FORMAT_R32G32B32A32_FLOAT), DXGI_FORMAT_R32G32B32A32_TYPELESS);
    assert_eq!(make_typeless_unorm(DXGI_FORMAT_R8G8B8A8_UNORM), DXGI_FORMAT_R8G8B8A8_TYPELESS);
    assert_eq!(make_typeless(DXGI_FORMAT_UNKNOWN), DXGI_FORMAT_UNKNOWN);
}

#[test]
fn bits_per_pixel_values() {
    assert_eq!(bits_per_pixel(DXGI_FORMAT_R32G32B32A32_FLOAT), 128);
    assert_eq!(bits_per_pixel(DXGI_FORMAT_R8G8B8A8_UNORM), 32);
    assert_eq!(bits_per_pixel(DXGI_FORMAT_BC1_UNORM), 4);
    assert_eq!(bits_per_pixel(DXGI_FORMAT_BC7_UNORM), 8);
    assert_eq!(bits_per_pixel(DXGI_FORMAT_NV12), 12);
    assert_eq!(bits_per_pixel(DXGI_FORMAT_UNKNOWN), 0);
    assert_eq!(bits_per_pixel(999), 0);
}

#[test]
fn classification() {
    assert!(is_packed(DXGI_FORMAT_YUY2));
    assert!(is_video(DXGI_FORMAT_NV12));
    assert!(is_planar(DXGI_FORMAT_NV12));
    assert!(!is_planar(DXGI_FORMAT_R8G8B8A8_UNORM));
    assert!(is_depth_stencil(40));
    assert!(is_bgr(DXGI_FORMAT_B8G8R8A8_UNORM));
    assert!(is_typeless(DXGI_FORMAT_R8G8B8A8_TYPELESS, false));
    assert!(!is_typeless(46, false));
    assert!(is_typeless(46, true));
    assert!(has_alpha(DXGI_FORMAT_R8G8B8A8_UNORM));
    assert!(!has_alpha(DXGI_FORMAT_R8_UNORM));
    assert!(is_compressed(DXGI_FORMAT_BC3_UNORM));
    assert!(!is_packed(999) && !has_alpha(999) && !is_typeless(999, true));
    assert_eq!(format_data_type(DXGI_FORMAT_R8G8B8A8_UNORM), FormatType::Unorm);
    assert_eq!(format_data_type(DXGI_FORMAT_R32G32B32A32_FLOAT), FormatType::Float);
    assert_eq!(format_data_type(67), FormatType::SharedExp);
    assert_eq!(format_data_type(DXGI_FORMAT_UNKNOWN), FormatType::Unknown);
}

#[test]
fn srgb_round_trip() {
    assert_eq!(make_srgb(DXGI_FORMAT_R8G8B8A8_UNORM), DXGI_FORMAT_R8G8B8A8_UNORM_SRGB);
    assert_eq!(make_srgb(DXGI_FORMAT_B8G8R8A8_UNORM), DXGI_FORMAT_B8G8R8A8_UNORM_SRGB);
    assert_eq!(make_linear(DXGI_FORMAT_R8G8B8A8_UNORM_SRGB), DXGI_FORMAT_R8G8B8A8_UNORM);
    assert_eq!(make_srgb(DXGI_FORMAT_R8_UNORM), DXGI_FORMAT_R8_UNORM);
}

#[test]
fn pitch_values() {
    assert_eq!(compute_pitch(DXGI_FORMAT_R8G8B8A8_UNORM, 3, 2, CP_FLAGS_NONE), Ok((12, 24)));
    assert_eq!(compute_pitch(DXGI_FORMAT_BC1_UNORM, 5, 5, CP_FLAGS_NONE), Ok((16, 32)));
    assert_eq!(compute_pitch(DXGI_FORMAT_BC3_UNORM, 1, 1, CP_FLAGS_NONE), Ok((16, 16)));
    assert_eq!(compute_pitch(DXGI_FORMAT_R8_UNORM, 3, 3, CP_FLAGS_LEGACY_DWORD), Ok((4, 12)));
    assert_eq!(compute_pitch(DXGI_FORMAT_R8_UNORM, 3, 1, CP_FLAGS_PARAGRAPH), Ok((16, 16)));
    assert_eq!(compute_pitch(DXGI_FORMAT_YUY2, 3, 2, CP_FLAGS_NONE), Ok((8, 16)));
    assert_eq!(compute_pitch(DXGI_FORMAT_NV12, 4, 4, CP_FLAGS_NONE), Ok((4, 24)));
    assert_eq!(compute_pitch(DXGI_FORMAT_UNKNOWN, 4, 4, CP_FLAGS_NONE), Err(HResultError::UnsupportedFormat));
    assert_eq!(
        compute_pitch(DXGI_FORMAT_R32G32B32A32_FLOAT, usize::MAX, 1, CP_FLAGS_NONE),
        Err(HResultError::ArithmeticOverflow)
    );
    assert_eq!(
        compute_pitch(DXGI_FORMAT_R8_UNORM, usize::MAX, 2, CP_FLAGS_NONE),
        Err(HResultError::ArithmeticOverflow)
    );
}

#[test]
fn scanline_values() {
    assert_eq!(compute_scanlines(DXGI_FORMAT_R8_UNORM, 7), 7);
    assert_eq!(compute_scanlines(DXGI_FORMAT_BC1_UNORM, 7), 2);
    assert_eq!(compute_scanlines(DXGI_FORMAT_BC1_UNORM, 1), 1);
    assert_eq!(compute_scanlines(DXGI_FORMAT_NV12, 4), 6);
}

#[test]
fn bits_per_color_values() {
    assert_eq!(bits_per_color(DXGI_FORMAT_R32G32B32A32_FLOAT), 32);
    assert_eq!(bits_per_color(DXGI_FORMAT_R8G8B8A8_UNORM), 8);
    assert_eq!(bits_per_color(DXGI_FORMAT_BC7_UNORM), 7);
    assert_eq!(bits_per_color(DXGI_FORMAT_BC1_UNORM), 6);
    assert_eq!(bits_per_color(67), 14);
    assert_eq!(bits_per_color(DXGI_FORMAT_UNKNOWN), 0);
    assert_eq!(bits_per_color(113), 0);
}

#[test]
fn planar_excludes_depth_stencil() {
    assert!(!is_planar(20));
    assert!(!is_planar(45));
    assert!(is_planar(110));
}

#[test]
fn pitch_flag_precedence() {
    let both = CP_FLAGS_LEGACY_DWORD | CP_FLAGS_PARAGRAPH;
    assert_eq!(compute_pitch(DXGI_FORMAT_R8_UNORM, 3, 1, both), Ok((16, 16)));
    assert_eq!(compute_pitch(DXGI_FORMAT_R8_UNORM, 3, 1, both | 0x200), Ok((4096, 4096)));
}
