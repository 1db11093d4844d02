use directxtex::dds::{get_metadata_from_dds_memory, DDS_FLAGS_FORCE_RGB};
use directxtex::error::HResultError;
use directxtex::format::{DXGI_FORMAT_B8G8R8A8_UNORM, DXGI_FORMAT_BC1_UNORM, DXGI_FORMAT_BC3_UNORM, DXGI_FORMAT_R8G8B8A8_UNORM};
use directxtex::metadata::{TexDimension, TEX_MISC_TEXTURECUBE};

fn put(b: &mut [u8], o: usize, v: u32) {
    b[o..o + 4].copy_from_slice(&v.to_le_bytes());
}

fn header(width: u32, height: u32, mips: u32) -> Vec<u8> {
    let mut b = vec![0u8; 128];
    put(&mut b, 0, 0x2053_4444);
    put(&mut b, 4, 124);
    put(&mut b, 8, 0x1007);
    put(&mut b, 12, height);
    put(&mut b, 16, width);
    put(&mut b, 28, mips);
    put(&mut b, 76, 32);
    b
}

#[test]
fn short_buffer_is_parse_error() {
    let full = header(4, 4, 1);
    for n in 0..128 {
        assert_eq!(get_metadata_from_dds_memory(&full[..n], 0), Err(HResultError::ParseError));
    }
}

#[test]
fn bad_signature_is_parse_error() {
    let mut b = header(4, 4, 1);
    b[0] = b'X';
    assert_eq!(get_metadata_from_dds_memory(&b, 0), Err(HResultError::ParseError));
}

#[test]
fn legacy_fourcc() {
    let mut b = header(16, 8, 0);
    put(&mut b, 80, 0x4);
    put(&mut b, 84, 0x3154_5844);
    let md = get_metadata_from_dds_memory(&b, 0).unwrap();
    assert_eq!((md.width, md.height, md.depth, md.array_size, md.mip_levels), (16, 8, 1, 1, 1));
    assert_eq!(md.format, DXGI_FORMAT_BC1_UNORM);
    assert_eq!(md.dimension, TexDimension::Texture2D);
}

#[test]
fn legacy_masks_and_cube() {
    let mut b = header(8, 8, 4);
    put(&mut b, 80, 0x41);
    put(&mut b, 88, 32);
    put(&mut b, 92, 0xff_0000);
    put(&mut b, 96, 0xff00);
    put(&mut b, 100, 0xff);
    put(&mut b, 104, 0xff00_0000);
    put(&mut b, 112, 0xfe00);
    let md = get_metadata_from_dds_memory(&b, 0).unwrap();
    assert_eq!(md.format, DXGI_FORMAT_B8G8R8A8_UNORM);
    assert_eq!(md.array_size, 6);
    assert_eq!(md.mip_levels, 4);
    assert_ne!(md.misc_flags & TEX_MISC_TEXTURECUBE, 0);
    let rgb = get_metadata_from_dds_memory(&b, DDS_FLAGS_FORCE_RGB).unwrap();
    assert_eq!(rgb.format, DXGI_FORMAT_R8G8B8A8_UNORM);
    put(&mut b, 112, 0x0600);
    assert_eq!(get_metadata_from_dds_memory(&b, 0), Err(HResultError::UnsupportedFormat));
}

#[test]
fn unknown_legacy_format() {
    let mut b = header(4, 4, 1);
    put(&mut b, 80, 0x4);
    put(&mut b, 84, 0x1234_5678);
    assert_eq!(get_metadata_from_dds_memory(&b, 0), Err(HResultError::UnsupportedFormat));
}

#[test]
fn dx10_extension() {
    let mut b = header(32, 16, 2);
    b.resize(148, 0);
    put(&mut b, 80, 0x4);
    put(&mut b, 84, 0x3031_5844);
    put(&mut b, 128, DXGI_FORMAT_BC3_UNORM);
    put(&mut b, 132, 3);
    put(&mut b, 136, 0x4);
    put(&mut b, 140, 2);
    let md = get_metadata_from_dds_memory(&b, 0).unwrap();
    assert_eq!(md.format, DXGI_FORMAT_BC3_UNORM);
    assert_eq!(md.array_size, 12);
    assert_eq!(md.mip_levels, 2);
    assert_ne!(md.misc_flags & TEX_MISC_TEXTURECUBE, 0);
    assert_eq!(get_metadata_from_dds_memory(&b[..140], 0), Err(HResultError::ParseError));
    put(&mut b, 140, 0);
    assert_eq!(get_metadata_from_dds_memory(&b, 0), Err(HResultError::ParseError));
    put(&mut b, 140, 1);
    put(&mut b, 132, 4);
    assert_eq!(get_metadata_from_dds_memory(&b, 0), Err(HResultError::ParseError));
    put(&mut b, 8, 0x80_1007);
    put(&mut b, 24, 5);
    let vol = get_metadata_from_dds_memory(&b, 0).unwrap();
    assert_eq!((vol.depth, vol.dimension), (5, TexDimension::Texture3D));
    put(&mut b, 128, 0);
    assert_eq!(get_metadata_from_dds_memory(&b, 0), Err(HResultError::UnsupportedFormat));
}
