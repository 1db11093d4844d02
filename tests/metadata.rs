use directxtex::format::DXGI_FORMAT_R8_UNORM;
use directxtex::metadata::{count_mips, TexDimension, TexMetadata, TEX_MISC_TEXTURECUBE};

fn shape(width: usize, height: usize, depth: usize, array_size: usize, mip_levels: usize, dimension: TexDimension) -> TexMetadata {
    TexMetadata {
        width,
        height,
        depth,
        array_size,
        mip_levels,
        misc_flags: 0,
        misc_flags2: 0,
        format: DXGI_FORMAT_R8_UNORM,
        dimension,
    }
}

#[test]
fn index_of_array_texture() {
    let md = shape(8, 8, 1, 3, 4, TexDimension::Texture2D);
    assert_eq!(md.compute_index(2, 1, 0), Some(6));
    assert_eq!(md.compute_index(0, 0, 0), Some(0));
    assert_eq!(md.compute_index(3, 2, 0), Some(11));
    assert_eq!(md.compute_index(4, 0, 0), None);
    assert_eq!(md.compute_index(0, 3, 0), None);
    assert_eq!(md.compute_index(0, 0, 1), None);
}

#[test]
fn index_of_volume_texture() {
    let md = shape(4, 4, 4, 1, 3, TexDimension::Texture3D);
    assert_eq!(md.compute_index(0, 0, 3), Some(3));
    assert_eq!(md.compute_index(1, 0, 1), Some(5));
    assert_eq!(md.compute_index(2, 0, 0), Some(6));
    assert_eq!(md.compute_index(1, 0, 2), None);
    assert_eq!(md.compute_index(0, 1, 0), None);
}

#[test]
fn index_is_a_bijection() {
    let shapes = [
        shape(8, 8, 1, 3, 4, TexDimension::Texture2D),
        shape(5, 3, 7, 1, 3, TexDimension::Texture3D),
        TexMetadata { misc_flags: TEX_MISC_TEXTURECUBE, ..shape(4, 4, 1, 6, 3, TexDimension::Texture2D) },
    ];
    for md in shapes.iter() {
        let mut seen = Vec::new();
        for mip in 0..md.mip_levels + 1 {
            for item in 0..md.array_size + 1 {
                for slice in 0..md.depth + 1 {
                    if let Some(i) = md.compute_index(mip, item, slice) {
                        seen.push(i);
                    }
                }
            }
        }
        seen.sort();
        let expected: Vec<usize> = (0..seen.len()).collect();
        assert_eq!(seen, expected);
    }
    assert_eq!(shapes[1].compute_index(2, 0, 0), Some(7 + 3));
}

#[test]
fn mip_counts() {
    assert_eq!(count_mips(1), 1);
    assert_eq!(count_mips(2), 2);
    assert_eq!(count_mips(256), 9);
    assert_eq!(count_mips(255), 8);
    assert_eq!(count_mips(0), 1);
}
