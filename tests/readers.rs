use directxtex::error::HResultError;
use directxtex::format::{DXGI_FORMAT_B5G5R5A1_UNORM, DXGI_FORMAT_B8G8R8A8_UNORM, DXGI_FORMAT_R32G32B32A32_FLOAT, DXGI_FORMAT_R8G8B8A8_UNORM, DXGI_FORMAT_R8_UNORM};
use directxtex::hdr::get_metadata_from_hdr_memory;
use directxtex::metadata::{TexDimension, TEX_ALPHA_MODE_OPAQUE, TEX_ALPHA_MODE_UNKNOWN};
use directxtex::tga::{get_metadata_from_tga_memory, TGA_FLAGS_BGR, TGA_FLAGS_EXPAND_LUMINANCE};

fn tga(kind: u8, bits: u8, width: u16, height: u16) -> Vec<u8> {
    let mut b = vec![0u8; 18];
    b[2] = kind;
    b[12..14].copy_from_slice(&width.to_le_bytes());
    b[14..16].copy_from_slice(&height.to_le_bytes());
    b[16] = bits;
    b
}

#[test]
fn tga_truecolor() {
    let md = get_metadata_from_tga_memory(&tga(2, 32, 300, 2), 0).unwrap();
    assert_eq!((md.width, md.height, md.depth, md.array_size, md.mip_levels), (300, 2, 1, 1, 1));
    assert_eq!(md.format, DXGI_FORMAT_R8G8B8A8_UNORM);
    assert_eq!(md.dimension, TexDimension::Texture2D);
    let bgr = get_metadata_from_tga_memory(&tga(10, 32, 4, 4), TGA_FLAGS_BGR).unwrap();
    assert_eq!(bgr.format, DXGI_FORMAT_B8G8R8A8_UNORM);
    assert_eq!(get_metadata_from_tga_memory(&tga(2, 24, 4, 4), 0).unwrap().format, DXGI_FORMAT_R8G8B8A8_UNORM);
    assert_eq!(get_metadata_from_tga_memory(&tga(2, 16, 4, 4), 0).unwrap().format, DXGI_FORMAT_B5G5R5A1_UNORM);
    assert_eq!(get_metadata_from_tga_memory(&tga(3, 8, 4, 4), 0).unwrap().format, DXGI_FORMAT_R8_UNORM);
}

#[test]
fn tga_errors() {
    let h = tga(2, 32, 4, 4);
    assert_eq!(get_metadata_from_tga_memory(&h[..17], 0), Err(HResultError::ParseError));
    assert_eq!(get_metadata_from_tga_memory(&tga(2, 12, 4, 4), 0), Err(HResultError::ParseError));
    assert_eq!(get_metadata_from_tga_memory(&tga(2, 32, 0, 4), 0), Err(HResultError::ParseError));
    assert_eq!(get_metadata_from_tga_memory(&tga(1, 8, 4, 4), 0), Err(HResultError::UnsupportedFormat));
    let mut mapped = tga(2, 32, 4, 4);
    mapped[1] = 1;
    assert_eq!(get_metadata_from_tga_memory(&mapped, 0), Err(HResultError::UnsupportedFormat));
}

#[test]
fn hdr_header() {
    let text = b"#?RADIANCE\nFORMAT=32-bit_rle_rgbe\n\n-Y 480 +X 640\n";
    let md = get_metadata_from_hdr_memory(text).unwrap();
    assert_eq!((md.width, md.height, md.depth, md.array_size, md.mip_levels), (640, 480, 1, 1, 1));
    assert_eq!(md.format, DXGI_FORMAT_R32G32B32A32_FLOAT);
    assert_eq!(md.misc_flags2, TEX_ALPHA_MODE_OPAQUE);
    let alt = get_metadata_from_hdr_memory(b"#?RGBE\n\n-Y 1 +X 2\nrest").unwrap();
    assert_eq!((alt.width, alt.height), (2, 1));
}

#[test]
fn hdr_errors() {
    let bad: [&[u8]; 8] = [
        b"",
        b"#?RADIANCX\n\n-Y 1 +X 1\n",
        b"#?RADIANCE\n-Y 1 +X 1\n",
        b"#?RADIANCE\n\n+Y 1 +X 1\n",
        b"#?RADIANCE\n\n-Y  +X 1\n",
        b"#?RADIANCE\n\n-Y 1 +X 1",
        b"#?RADIANCE\n\n-Y 0 +X 1\n",
        b"#?RADIANCE\n\n-Y 1 +X 99999999999\n",
    ];
    for b in bad.iter() {
        assert_eq!(get_metadata_from_hdr_memory(b), Err(HResultError::ParseError));
    }
}

#[test]
fn tga_flags_and_alpha_mode() {
    assert_eq!(get_metadata_from_tga_memory(&tga(2, 24, 4, 4), TGA_FLAGS_BGR).unwrap().format, 88);
    assert_eq!(get_metadata_from_tga_memory(&tga(3, 8, 4, 4), TGA_FLAGS_EXPAND_LUMINANCE).unwrap().format, DXGI_FORMAT_R8G8B8A8_UNORM);
    let plain = get_metadata_from_tga_memory(&tga(2, 24, 4, 4), 0).unwrap();
    assert_eq!(plain.misc_flags2, TEX_ALPHA_MODE_OPAQUE);
    let mut with_alpha = tga(2, 32, 4, 4);
    with_alpha[17] = 0x28;
    assert_eq!(get_metadata_from_tga_memory(&with_alpha, 0).unwrap().misc_flags2, TEX_ALPHA_MODE_UNKNOWN);
}
