use directxtex::error::HResultError;
use directxtex::format::{
    DXGI_FORMAT_A8_UNORM, DXGI_FORMAT_B5G5R5A1_UNORM, DXGI_FORMAT_B8G8R8A8_UNORM, DXGI_FORMAT_BC1_UNORM, DXGI_FORMAT_R32_FLOAT,
    DXGI_FORMAT_R8G8B8A8_UNORM, DXGI_FORMAT_R8G8B8A8_UNORM_SRGB, DXGI_FORMAT_R8_UNORM,
    DXGI_FORMAT_UNKNOWN, CP_FLAGS_NONE,
};
use directxtex::metadata::{TexDimension, TexMetadata, TEX_MISC_TEXTURECUBE};
use directxtex::scratch_image::{Image, ScratchImage};

fn view(width: usize, height: usize, format: u32, row_pitch: usize, offset: usize) -> Image {
    Image { width, height, format, row_pitch, slice_pitch: row_pitch * height, offset }
}

#[test]
fn verify_layout() {
    let empty = ScratchImage::default();
    assert_eq!(empty.get_images().len(), 0);
    assert_eq!(empty.get_pixels().len(), 0);
    assert_eq!(empty.get_metadata().format, DXGI_FORMAT_UNKNOWN);

    let mut s = ScratchImage::default();
    s.initialize_2d(DXGI_FORMAT_R8G8B8A8_UNORM, 8, 4, 2, 0, CP_FLAGS_NONE).unwrap();
    let images = s.get_images();
    assert_eq!(images.len(), 2 * 4);
    let mut offset = 0;
    for img in images {
        assert_eq!(img.offset, offset);
        offset += img.slice_pitch;
    }
    assert_eq!(offset, s.get_pixels().len());
}

#[test]
fn full_mip_chain_is_counted() {
    let mut s = ScratchImage::default();
    s.initialize_2d(DXGI_FORMAT_R8G8B8A8_UNORM, 256, 64, 1, 0, CP_FLAGS_NONE).unwrap();
    assert_eq!(s.get_metadata().mip_levels, 9);
    let last = s.get_image(8, 0, 0).unwrap();
    assert_eq!((last.width, last.height), (1, 1));
    let mid = s.get_image(3, 0, 0).unwrap();
    assert_eq!((mid.width, mid.height, mid.row_pitch), (32, 8, 128));
    assert!(s.get_image(9, 0, 0).is_none());
}

#[test]
fn single_image_pitch_matches_compute_pitch() {
    let mut s = ScratchImage::default();
    s.initialize_2d(DXGI_FORMAT_R8G8B8A8_UNORM, 7, 5, 1, 1, CP_FLAGS_NONE).unwrap();
    let img = *s.get_image(0, 0, 0).unwrap();
    let (row, slice) = directxtex::format::compute_pitch(DXGI_FORMAT_R8G8B8A8_UNORM, 7, 5, CP_FLAGS_NONE).unwrap();
    assert_eq!(img.row_pitch, row);
    assert_eq!(img.slice_pitch, slice);
    assert_eq!((row, slice), (28, 140));
    assert_eq!(s.get_pixels().len(), slice);
}

#[test]
fn release_is_idempotent() {
    let mut s = ScratchImage::default();
    s.initialize_2d(DXGI_FORMAT_R8_UNORM, 4, 4, 1, 1, CP_FLAGS_NONE).unwrap();
    assert!(s.get_image(0, 0, 0).is_some());
    s.release();
    assert!(s.get_image(0, 0, 0).is_none());
    s.release();
    assert!(s.get_image(0, 0, 0).is_none());
    assert_eq!(s.get_pixels().len(), 0);
    assert_eq!(s.get_images().len(), 0);
}

#[test]
fn cube_from_six_opaque_views() {
    let pixels = vec![0xffu8; 64 * 64 * 4];
    let face = view(64, 64, DXGI_FORMAT_R8G8B8A8_UNORM, 256, 0);
    let faces = [face; 6];
    let mut s = ScratchImage::default();
    s.initialize_cube_from_images(&faces, &pixels, CP_FLAGS_NONE).unwrap();
    let md = *s.get_metadata();
    assert_eq!(md.array_size, 6);
    assert_ne!(md.misc_flags & TEX_MISC_TEXTURECUBE, 0);
    assert!(s.is_alpha_all_opaque());
}

#[test]
fn cube_needs_multiple_of_six_views() {
    let pixels = vec![0u8; 16];
    let face = view(2, 2, DXGI_FORMAT_R8G8B8A8_UNORM, 8, 0);
    let mut s = ScratchImage::default();
    assert_eq!(s.initialize_cube_from_images(&[face; 5], &pixels, CP_FLAGS_NONE), Err(HResultError::FormatMismatch));
    assert_eq!(s.initialize_cube_from_images(&[], &pixels, CP_FLAGS_NONE), Err(HResultError::FormatMismatch));
    assert_eq!(s.get_images().len(), 0);
}

#[test]
fn array_views_must_agree() {
    let pixels = vec![0u8; 64];
    let a = view(2, 2, DXGI_FORMAT_R8G8B8A8_UNORM, 8, 0);
    let b = view(2, 2, DXGI_FORMAT_B8G8R8A8_UNORM, 8, 16);
    let mut s = ScratchImage::default();
    assert_eq!(s.initialize_array_from_images(&[a, b], &pixels, false, CP_FLAGS_NONE), Err(HResultError::FormatMismatch));
    assert_eq!(s.initialize_array_from_images(&[], &pixels, false, CP_FLAGS_NONE), Err(HResultError::InvalidArgument));
}

#[test]
fn copy_in_uses_source_pitch() {
    // Two rows of 2 RGBA8 pixels, each row padded to 12 bytes.
    let mut src = vec![0u8; 24];
    for i in 0..8 {
        src[i] = i as u8 + 1;
        src[12 + i] = i as u8 + 101;
    }
    let v = view(2, 2, DXGI_FORMAT_R8G8B8A8_UNORM, 12, 0);
    let mut s = ScratchImage::default();
    s.initialize_from_image(&v, &src, false, CP_FLAGS_NONE).unwrap();
    let img = *s.get_image(0, 0, 0).unwrap();
    assert_eq!(img.row_pitch, 8);
    let px = s.get_pixels();
    assert_eq!(&px[0..8], &src[0..8]);
    assert_eq!(&px[8..16], &src[12..20]);
    assert_eq!(s.get_metadata().dimension, TexDimension::Texture2D);
}

#[test]
fn copy_in_one_row_as_1d() {
    let src = vec![7u8; 4];
    let v = view(4, 1, DXGI_FORMAT_R8_UNORM, 4, 0);
    let mut s = ScratchImage::default();
    s.initialize_from_image(&v, &src, true, CP_FLAGS_NONE).unwrap();
    assert_eq!(s.get_metadata().dimension, TexDimension::Texture1D);
    assert_eq!(s.get_pixels(), &[7u8, 7, 7, 7][..]);
}

#[test]
fn copy_in_rejects_short_source() {
    let src = vec![0u8; 10];
    let v = view(2, 2, DXGI_FORMAT_R8G8B8A8_UNORM, 8, 0);
    let mut s = ScratchImage::default();
    assert_eq!(s.initialize_from_image(&v, &src, false, CP_FLAGS_NONE), Err(HResultError::InvalidArgument));
    assert_eq!(s.get_images().len(), 0);
}

#[test]
fn volume_from_slices() {
    let src: Vec<u8> = (0..12u8).collect();
    let a = view(2, 2, DXGI_FORMAT_R8_UNORM, 2, 0);
    let b = view(2, 2, DXGI_FORMAT_R8_UNORM, 2, 4);
    let c = view(2, 2, DXGI_FORMAT_R8_UNORM, 2, 8);
    let mut s = ScratchImage::default();
    s.initialize_3d_from_images(&[a, b, c], &src, CP_FLAGS_NONE).unwrap();
    assert_eq!(s.get_metadata().depth, 3);
    assert_eq!(s.get_pixels(), &src[..]);
    assert_eq!(s.get_image(0, 0, 2).unwrap().offset, 8);
    assert!(s.get_image(0, 1, 0).is_none());
}

#[test]
fn alpha_scan_finds_transparent_pixel() {
    let mut s = ScratchImage::default();
    s.initialize_2d(DXGI_FORMAT_A8_UNORM, 4, 4, 1, 1, CP_FLAGS_NONE).unwrap();
    for b in s.get_pixels_mut().iter_mut() {
        *b = 0xff;
    }
    assert!(s.is_alpha_all_opaque());
    s.get_pixels_mut()[5] = 0x80;
    assert!(!s.is_alpha_all_opaque());
}

#[test]
fn alpha_scan_policy() {
    let mut s = ScratchImage::default();
    assert!(!s.is_alpha_all_opaque());
    s.initialize_2d(DXGI_FORMAT_R32_FLOAT, 4, 4, 1, 1, CP_FLAGS_NONE).unwrap();
    assert!(s.is_alpha_all_opaque());
    s.initialize_2d(DXGI_FORMAT_BC1_UNORM, 4, 4, 1, 1, CP_FLAGS_NONE).unwrap();
    assert!(!s.is_alpha_all_opaque());
}

#[test]
fn override_format_same_layout_only() {
    let mut s = ScratchImage::default();
    assert_eq!(s.override_format(DXGI_FORMAT_R8G8B8A8_UNORM), None);
    s.initialize_2d(DXGI_FORMAT_R8G8B8A8_UNORM, 4, 4, 1, 2, CP_FLAGS_NONE).unwrap();
    assert_eq!(s.override_format(DXGI_FORMAT_R8G8B8A8_UNORM_SRGB), Some(()));
    assert_eq!(s.get_metadata().format, DXGI_FORMAT_R8G8B8A8_UNORM_SRGB);
    assert!(s.get_images().iter().all(|i| i.format == DXGI_FORMAT_R8G8B8A8_UNORM_SRGB));
    assert_eq!(s.override_format(DXGI_FORMAT_BC1_UNORM), None);
    assert_eq!(s.get_metadata().format, DXGI_FORMAT_R8G8B8A8_UNORM_SRGB);
}

#[test]
fn initialize_errors() {
    let mut s = ScratchImage::default();
    assert_eq!(s.initialize_2d(DXGI_FORMAT_UNKNOWN, 4, 4, 1, 1, CP_FLAGS_NONE), Err(HResultError::InvalidArgument));
    assert_eq!(s.initialize_2d(DXGI_FORMAT_R8_UNORM, 0, 4, 1, 1, CP_FLAGS_NONE), Err(HResultError::InvalidArgument));
    assert_eq!(s.initialize_2d(DXGI_FORMAT_R8_UNORM, 4, 4, 1, 4, CP_FLAGS_NONE), Err(HResultError::InvalidArgument));
    assert_eq!(s.initialize_cube(DXGI_FORMAT_R8_UNORM, 4, 4, usize::MAX, 1, CP_FLAGS_NONE), Err(HResultError::ArithmeticOverflow));
    assert_eq!(
        s.initialize_2d(DXGI_FORMAT_R8G8B8A8_UNORM, usize::MAX / 2, 2, 1, 1, CP_FLAGS_NONE),
        Err(HResultError::ArithmeticOverflow)
    );
    assert_eq!(
        s.initialize_1d(DXGI_FORMAT_R8_UNORM, usize::MAX / 2 + 1, 1, 1, CP_FLAGS_NONE),
        Err(HResultError::OutOfMemory)
    );
    assert_eq!(s.get_images().len(), 0);
}

#[test]
fn initialize_shapes() {
    let mut s = ScratchImage::default();
    s.initialize_1d(DXGI_FORMAT_R8_UNORM, 8, 3, 0, CP_FLAGS_NONE).unwrap();
    assert_eq!(s.get_images().len(), 3 * 4);
    assert_eq!(s.get_pixels().len(), 3 * (8 + 4 + 2 + 1));
    s.initialize_3d(DXGI_FORMAT_R8_UNORM, 4, 4, 4, 0, CP_FLAGS_NONE).unwrap();
    assert_eq!(s.get_images().len(), 4 + 2 + 1);
    assert_eq!(s.get_pixels().len(), 64 + 8 + 1);
    assert_eq!(s.get_image(1, 0, 1).unwrap().offset, 64 + 4);
    s.initialize_cube(DXGI_FORMAT_R8_UNORM, 2, 2, 2, 1, CP_FLAGS_NONE).unwrap();
    assert_eq!(s.get_metadata().array_size, 12);
    let md = TexMetadata {
        width: 4,
        height: 2,
        depth: 1,
        array_size: 1,
        mip_levels: 1,
        misc_flags: 0,
        misc_flags2: 0,
        format: DXGI_FORMAT_R8_UNORM,
        dimension: TexDimension::Texture2D,
    };
    s.initialize(&md, CP_FLAGS_NONE).unwrap();
    assert_eq!(*s.get_metadata(), md);
    assert!(s.get_pixels().iter().all(|b| *b == 0));
}

#[test]
fn alpha_scan_packed_formats() {
    let mut s = ScratchImage::default();
    s.initialize_2d(DXGI_FORMAT_B5G5R5A1_UNORM, 2, 2, 1, 1, CP_FLAGS_NONE).unwrap();
    assert!(!s.is_alpha_all_opaque());
    for (i, b) in s.get_pixels_mut().iter_mut().enumerate() {
        *b = if i % 2 == 1 { 0x80 } else { 0x00 };
    }
    assert!(s.is_alpha_all_opaque());
    s.initialize_2d(24, 1, 1, 1, 1, CP_FLAGS_NONE).unwrap();
    s.get_pixels_mut().copy_from_slice(&[0, 0, 0, 0xc0]);
    assert!(s.is_alpha_all_opaque());
    s.get_pixels_mut()[3] = 0x40;
    assert!(!s.is_alpha_all_opaque());
}

#[test]
fn override_between_packed_formats() {
    let mut s = ScratchImage::default();
    s.initialize_2d(68, 4, 2, 1, 1, CP_FLAGS_NONE).unwrap();
    assert_eq!(s.override_format(69), Some(()));
    assert_eq!(s.override_format(107), Some(()));
    assert_eq!(s.get_metadata().format, 107);
    assert_eq!(s.override_format(DXGI_FORMAT_R8G8B8A8_UNORM), None);
    s.initialize_2d(108, 4, 2, 1, 1, CP_FLAGS_NONE).unwrap();
    assert_eq!(s.override_format(109), Some(()));
    s.initialize_2d(104, 4, 2, 1, 1, CP_FLAGS_NONE).unwrap();
    assert_eq!(s.override_format(105), None);
}
