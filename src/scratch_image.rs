//! The owning texture container: one byte buffer partitioned among all
//! subresources, and one descriptor per subresource in index order.
use vstd::prelude::*;
use crate::error::HResultError;
use crate::format::{
    alpha_spec, bits_per_pixel, bpp_of, compute_pitch, has_alpha, has_same_layout,
    lemma_row_pitch_positive, lemma_same_layout_same_pitch, pitch_fits, row_pitch_of,
    same_layout, scanlines_of, scanlines_wide, slice_pitch_of, DxgiFormat, DXGI_FORMAT_UNKNOWN,
};
use crate::metadata::{
    count_mips, full_mip_count, lemma_index_in_range, lemma_level_size_positive,
    lemma_slices_before_monotone, level_size, slices_before, TexDimension, TexMetadata,
    TEX_MISC_TEXTURECUBE,
};

verus! {

/// Geometry of one subresource and where its bytes start in the buffer
/// that holds them.
#[derive(Debug, Clone, Copy, PartialEq, Eq, Structural)]
pub struct Image {
    pub width: usize,
    pub height: usize,
    pub format: DxgiFormat,
    pub row_pitch: usize,
    pub slice_pitch: usize,
    pub offset: usize,
}

/// Owns the pixel bytes of every subresource of one texture.
#[derive(Debug)]
pub struct ScratchImage {
    metadata: TexMetadata,
    images: Vec<Image>,
    memory: Vec<u8>,
}

/// The shape of an empty container.
pub open spec fn empty_metadata() -> TexMetadata {
    TexMetadata {
        width: 0,
        height: 0,
        depth: 0,
        array_size: 0,
        mip_levels: 0,
        misc_flags: 0,
        misc_flags2: 0,
        format: DXGI_FORMAT_UNKNOWN,
        dimension: TexDimension::Texture2D,
    }
}

/// Descriptors that cut a buffer of `len` bytes into consecutive,
/// non-overlapping pieces, in order, with nothing left over.
pub open spec fn partitions(imgs: Seq<Image>, len: int) -> bool {
    &&& imgs.len() > 0
    &&& imgs[0].offset == 0
    &&& forall|j: int| 0 <= j < imgs.len() - 1
        ==> #[trigger] imgs[j].offset + imgs[j].slice_pitch == imgs[j + 1].offset
    &&& imgs.last().offset + imgs.last().slice_pitch == len
}

/// Width, height and pitches of mip level `m` of a shape.
pub open spec fn level_image_ok(md: TexMetadata, flags: u32, m: int, img: Image) -> bool {
    let w = level_size(md.width as int, m as nat);
    let h = level_size(md.height as int, m as nat);
    &&& img.width == w
    &&& img.height == h
    &&& img.format == md.format
    &&& img.row_pitch == row_pitch_of(md.format, w, flags)
    &&& img.slice_pitch == slice_pitch_of(md.format, w, h, flags)
}

/// Bytes of one subresource at mip level `m`.
pub open spec fn level_bytes(md: TexMetadata, flags: u32, m: nat) -> int {
    slice_pitch_of(
        md.format,
        level_size(md.width as int, m),
        level_size(md.height as int, m),
        flags,
    )
}

/// Bytes of all subresources of one array item (all slices of a volume)
/// in mip levels below `n`.
pub open spec fn chain_bytes(md: TexMetadata, flags: u32, n: nat) -> int
    decreases n,
{
    if n == 0 {
        0
    } else {
        let per_level = if md.is_volume() { level_size(md.depth as int, (n - 1) as nat) } else { 1 };
        chain_bytes(md, flags, (n - 1) as nat) + per_level * level_bytes(md, flags, (n - 1) as nat)
    }
}

/// Bytes of the whole texture.
pub open spec fn total_bytes(md: TexMetadata, flags: u32) -> int {
    if md.is_volume() {
        chain_bytes(md, flags, md.mip_levels as nat)
    } else {
        md.array_size * chain_bytes(md, flags, md.mip_levels as nat)
    }
}

/// The largest extent that a mip chain halves.
pub open spec fn max_extent(md: TexMetadata) -> int {
    let wh = if md.width >= md.height { md.width as int } else { md.height as int };
    if md.is_volume() && md.depth as int > wh { md.depth as int } else { wh }
}

/// A valid shape of a catalogued format whose mip chain is not longer
/// than the full chain.
pub open spec fn shape_ok(md: TexMetadata) -> bool {
    &&& md.valid()
    &&& bpp_of(md.format) > 0
    &&& md.mip_levels <= full_mip_count(max_extent(md))
}

/// Every count, pitch and size of the layout fits in `usize`.
pub open spec fn layout_fits(md: TexMetadata, flags: u32) -> bool {
    &&& md.subresource_count() <= usize::MAX
    &&& forall|m: int| 0 <= m < md.mip_levels ==> #[trigger] pitch_fits(
        md.format,
        level_size(md.width as int, m as nat),
        level_size(md.height as int, m as nat),
        flags,
    )
    &&& total_bytes(md, flags) <= usize::MAX
}

/// What initializing a container with shape `md` under `flags` returns.
pub open spec fn init_result(md: TexMetadata, flags: u32) -> Result<(), HResultError> {
    if !shape_ok(md) {
        Err(HResultError::InvalidArgument)
    } else if !layout_fits(md, flags) {
        Err(HResultError::ArithmeticOverflow)
    } else if total_bytes(md, flags) > isize::MAX {
        Err(HResultError::OutOfMemory)
    } else {
        Ok(())
    }
}

proof fn lemma_level_bytes_nonneg(md: TexMetadata, flags: u32, m: nat)
    requires
        md.valid(),
    ensures
        level_bytes(md, flags, m) >= 0,
{
    let w = level_size(md.width as int, m);
    let h = level_size(md.height as int, m);
    lemma_level_size_positive(md.width as int, m);
    lemma_level_size_positive(md.height as int, m);
    let a = row_pitch_of(md.format, w, flags);
    let b = scanlines_of(md.format, h);
    assert(a >= 0 && b >= 0);
    assert(a * b >= 0) by (nonlinear_arith)
        requires a >= 0, b >= 0;
}

proof fn lemma_chain_monotone(md: TexMetadata, flags: u32, a: nat, b: nat)
    requires
        md.valid(),
        a <= b,
    ensures
        chain_bytes(md, flags, a) <= chain_bytes(md, flags, b),
        chain_bytes(md, flags, a) >= 0,
    decreases b,
{
    if b > 0 {
        lemma_level_bytes_nonneg(md, flags, (b - 1) as nat);
        lemma_level_size_positive(md.depth as int, (b - 1) as nat);
        let p = if md.is_volume() { level_size(md.depth as int, (b - 1) as nat) } else { 1 };
        let lb = level_bytes(md, flags, (b - 1) as nat);
        assert(p * lb >= 0) by (nonlinear_arith)
            requires p >= 1, lb >= 0;
        if a < b {
            lemma_chain_monotone(md, flags, a, (b - 1) as nat);
        } else {
            lemma_chain_monotone(md, flags, 0, (b - 1) as nat);
        }
    }
}

proof fn lemma_chain_within_total(md: TexMetadata, flags: u32, n: nat)
    requires
        md.valid(),
        n <= md.mip_levels,
    ensures
        chain_bytes(md, flags, n) <= total_bytes(md, flags),
{
    lemma_chain_monotone(md, flags, n, md.mip_levels as nat);
    let c = chain_bytes(md, flags, md.mip_levels as nat);
    let a = md.array_size as int;
    assert(c <= a * c) by (nonlinear_arith)
        requires a >= 1, c >= 0;
}

/// Whether subresource `(m, i, s)` is present in `imgs` with the geometry
/// of mip level `m`.
pub open spec fn placed(imgs: Seq<Image>, md: TexMetadata, flags: u32, m: int, i: int, s: int) -> bool {
    let k = md.index_of(m, i, s);
    0 <= k < imgs.len() && level_image_ok(md, flags, m, imgs[k])
}

/// Descriptors laid end to end from offset 0 up to `end`.
pub open spec fn packed_up_to(imgs: Seq<Image>, end: int, format: DxgiFormat) -> bool {
    &&& imgs.len() == 0 ==> end == 0
    &&& imgs.len() > 0 ==> imgs[0].offset == 0 && imgs.last().offset + imgs.last().slice_pitch == end
    &&& forall|j: int| 0 <= j < imgs.len() - 1
        ==> #[trigger] imgs[j].offset + imgs[j].slice_pitch == imgs[j + 1].offset
    &&& forall|j: int| 0 <= j < imgs.len() ==> (#[trigger] imgs[j]).format == format
}

fn check_shape(md: &TexMetadata) -> (r: bool)
    ensures
        r == shape_ok(*md),
{
    let volume = match md.dimension {
        TexDimension::Texture3D => true,
        _ => false,
    };
    let cube = md.misc_flags & TEX_MISC_TEXTURECUBE != 0;
    if md.mip_levels < 1 || md.array_size < 1 || md.width < 1 || md.height < 1 || md.depth < 1 {
        return false;
    }
    if md.depth > 1 && !volume {
        return false;
    }
    if volume && md.array_size != 1 {
        return false;
    }
    if md.height != 1 && match md.dimension {
        TexDimension::Texture1D => true,
        _ => false,
    } {
        return false;
    }
    if cube && (volume || md.array_size % 6 != 0) {
        return false;
    }
    if bits_per_pixel(md.format) == 0 {
        return false;
    }
    let wh = if md.width >= md.height { md.width } else { md.height };
    let extent = if volume && md.depth > wh { md.depth } else { wh };
    md.mip_levels <= count_mips(extent)
}

/// One descriptor (at offset 0) per mip level, the subresource count and
/// the total size; `ArithmeticOverflow` when any of them does not fit.
fn plan_levels(md: &TexMetadata, flags: u32) -> (r: Result<(Vec<Image>, usize, usize), HResultError>)
    requires
        shape_ok(*md),
    ensures
        r.is_ok() == layout_fits(*md, flags),
        r matches Err(e) ==> e == HResultError::ArithmeticOverflow,
        r matches Ok((levels, count, total)) ==> {
            &&& levels@.len() == md.mip_levels
            &&& forall|m: int| 0 <= m < md.mip_levels ==> level_image_ok(*md, flags, m, #[trigger] levels@[m])
            &&& count == md.subresource_count()
            &&& total == total_bytes(*md, flags)
        },
{
    let volume = match md.dimension {
        TexDimension::Texture3D => true,
        _ => false,
    };
    let mut levels: Vec<Image> = Vec::new();
    let mut w = md.width;
    let mut h = md.height;
    let mut d = md.depth;
    let mut chain: usize = 0;
    let mut slices: usize = 0;
    let mut m: usize = 0;
    while m < md.mip_levels
        invariant
            shape_ok(*md),
            volume == md.is_volume(),
            m <= md.mip_levels,
            levels@.len() == m,
            forall|k: int| 0 <= k < m ==> level_image_ok(*md, flags, k, #[trigger] levels@[k]),
            forall|k: int| 0 <= k < m ==> #[trigger] pitch_fits(
                md.format,
                level_size(md.width as int, k as nat),
                level_size(md.height as int, k as nat),
                flags,
            ),
            w == level_size(md.width as int, m as nat),
            h == level_size(md.height as int, m as nat),
            d == level_size(md.depth as int, m as nat),
            chain == chain_bytes(*md, flags, m as nat),
            volume ==> slices == slices_before(md.depth as int, m as nat),
        decreases md.mip_levels - m,
    {
        proof {
            lemma_level_size_positive(md.width as int, m as nat);
            lemma_level_size_positive(md.height as int, m as nat);
            lemma_level_size_positive(md.depth as int, m as nat);
            lemma_chain_within_total(*md, flags, (m + 1) as nat);
            lemma_chain_monotone(*md, flags, 0, m as nat);
            lemma_level_bytes_nonneg(*md, flags, m as nat);
            lemma_slices_before_monotone(md.depth as int, (m + 1) as nat, md.mip_levels as nat);
        }
        let (row, slice) = match compute_pitch(md.format, w, h, flags) {
            Err(_) => {
                return Err(HResultError::ArithmeticOverflow);
            },
            Ok(p) => p,
        };
        let per: usize = if volume { d } else { 1 };
        let term = match per.checked_mul(slice) {
            None => {
                proof {
                    assert(per * slice <= chain + per * slice) by (nonlinear_arith)
                        requires chain >= 0;
                }
                return Err(HResultError::ArithmeticOverflow);
            },
            Some(t) => t,
        };
        chain = match chain.checked_add(term) {
            None => {
                return Err(HResultError::ArithmeticOverflow);
            },
            Some(c) => c,
        };
        if volume {
            slices = match slices.checked_add(d) {
                None => {
                    return Err(HResultError::ArithmeticOverflow);
                },
                Some(c) => c,
            };
        }
        levels.push(Image { width: w, height: h, format: md.format, row_pitch: row, slice_pitch: slice, offset: 0 });
        if w > 1 {
            w = w / 2;
        }
        if h > 1 {
            h = h / 2;
        }
        if d > 1 {
            d = d / 2;
        }
        m = m + 1;
    }
    if volume {
        Ok((levels, slices, chain))
    } else {
        let count = match md.array_size.checked_mul(md.mip_levels) {
            None => {
                return Err(HResultError::ArithmeticOverflow);
            },
            Some(c) => c,
        };
        let total = match md.array_size.checked_mul(chain) {
            None => {
                return Err(HResultError::ArithmeticOverflow);
            },
            Some(t) => t,
        };
        Ok((levels, count, total))
    }
}

/// Descriptors of an array texture: item by item, each with its whole mip
/// chain, end to end.
fn build_array(md: &TexMetadata, flags: u32, levels: &Vec<Image>, total: usize) -> (imgs: Vec<Image>)
    requires
        shape_ok(*md),
        !md.is_volume(),
        layout_fits(*md, flags),
        levels@.len() == md.mip_levels,
        forall|m: int| 0 <= m < md.mip_levels ==> level_image_ok(*md, flags, m, #[trigger] levels@[m]),
        total == total_bytes(*md, flags),
    ensures
        imgs@.len() == md.subresource_count(),
        packed_up_to(imgs@, total as int, md.format),
        forall|m: int, i: int| 0 <= m < md.mip_levels && 0 <= i < md.array_size
            ==> #[trigger] placed(imgs@, *md, flags, m, i, 0),
{
    let ghost c = chain_bytes(*md, flags, md.mip_levels as nat);
    let ghost mm = md.mip_levels as int;
    let ghost aa = md.array_size as int;
    proof {
        lemma_chain_monotone(*md, flags, 0, md.mip_levels as nat);
    }
    let mut imgs: Vec<Image> = Vec::new();
    let mut offset: usize = 0;
    let mut item: usize = 0;
    while item < md.array_size
        invariant
            shape_ok(*md),
            !md.is_volume(),
            levels@.len() == md.mip_levels,
            forall|m: int| 0 <= m < md.mip_levels ==> level_image_ok(*md, flags, m, #[trigger] levels@[m]),
            total == aa * c,
            c >= 0,
            c == chain_bytes(*md, flags, md.mip_levels as nat),
            mm == md.mip_levels,
            aa == md.array_size,
            item <= md.array_size,
            imgs@.len() == item * mm,
            offset == item * c,
            packed_up_to(imgs@, offset as int, md.format),
            forall|m: int, i: int| 0 <= m < mm && 0 <= i < item ==> #[trigger] placed(imgs@, *md, flags, m, i, 0),
        decreases md.array_size - item,
    {
        let mut mip: usize = 0;
        while mip < md.mip_levels
            invariant
                shape_ok(*md),
                !md.is_volume(),
                levels@.len() == md.mip_levels,
                forall|m: int| 0 <= m < md.mip_levels ==> level_image_ok(*md, flags, m, #[trigger] levels@[m]),
                total == aa * c,
                c >= 0,
                c == chain_bytes(*md, flags, md.mip_levels as nat),
                mm == md.mip_levels,
                aa == md.array_size,
                item < md.array_size,
                mip <= md.mip_levels,
                imgs@.len() == item * mm + mip,
                offset == item * c + chain_bytes(*md, flags, mip as nat),
                packed_up_to(imgs@, offset as int, md.format),
                forall|m: int, i: int| 0 <= m < mm && 0 <= i < item ==> #[trigger] placed(imgs@, *md, flags, m, i, 0),
                forall|m: int| 0 <= m < mip ==> #[trigger] placed(imgs@, *md, flags, m, item as int, 0),
            decreases md.mip_levels - mip,
        {
            let lv = levels[mip];
            proof {
                lemma_chain_monotone(*md, flags, (mip + 1) as nat, md.mip_levels as nat);
                let ci = chain_bytes(*md, flags, (mip + 1) as nat);
                let it = item as int;
                assert(it * c + ci <= aa * c) by (nonlinear_arith)
                    requires it + 1 <= aa, ci <= c, c >= 0;
            }
            let img = Image { offset: offset, ..lv };
            let ghost before = imgs@;
            imgs.push(img);
            proof {
                assert forall|m: int, i: int| 0 <= m < mm && 0 <= i < item
                    implies #[trigger] placed(imgs@, *md, flags, m, i, 0) by {
                    assert(placed(before, *md, flags, m, i, 0));
                    assert(imgs@[md.index_of(m, i, 0)] == before[md.index_of(m, i, 0)]);
                }
                assert forall|m: int| 0 <= m < mip + 1
                    implies #[trigger] placed(imgs@, *md, flags, m, item as int, 0) by {
                    if m < mip {
                        assert(placed(before, *md, flags, m, item as int, 0));
                        assert(imgs@[md.index_of(m, item as int, 0)] == before[md.index_of(m, item as int, 0)]);
                    } else {
                        assert(level_image_ok(*md, flags, m, levels@[m]));
                        assert(imgs@[md.index_of(m, item as int, 0)] == img);
                    }
                }
            }
            offset = offset + lv.slice_pitch;
            mip = mip + 1;
        }
        proof {
            let it = item as int;
            assert(it * c + c == (it + 1) * c) by (nonlinear_arith);
            assert(it * mm + mm == (it + 1) * mm) by (nonlinear_arith);
        }
        item = item + 1;
    }
    imgs
}

/// Descriptors of a volume texture: mip level by mip level, each with all
/// of its depth slices, end to end.
fn build_volume(md: &TexMetadata, flags: u32, levels: &Vec<Image>, total: usize) -> (imgs: Vec<Image>)
    requires
        shape_ok(*md),
        md.is_volume(),
        layout_fits(*md, flags),
        levels@.len() == md.mip_levels,
        forall|m: int| 0 <= m < md.mip_levels ==> level_image_ok(*md, flags, m, #[trigger] levels@[m]),
        total == total_bytes(*md, flags),
    ensures
        imgs@.len() == md.subresource_count(),
        packed_up_to(imgs@, total as int, md.format),
        forall|m: int, s: int| 0 <= m < md.mip_levels && 0 <= s < level_size(md.depth as int, m as nat)
            ==> #[trigger] placed(imgs@, *md, flags, m, 0, s),
{
    let mut imgs: Vec<Image> = Vec::new();
    let mut offset: usize = 0;
    let mut d = md.depth;
    let mut mip: usize = 0;
    while mip < md.mip_levels
        invariant
            shape_ok(*md),
            md.is_volume(),
            levels@.len() == md.mip_levels,
            forall|m: int| 0 <= m < md.mip_levels ==> level_image_ok(*md, flags, m, #[trigger] levels@[m]),
            total == total_bytes(*md, flags),
            total <= usize::MAX,
            mip <= md.mip_levels,
            d == level_size(md.depth as int, mip as nat),
            imgs@.len() == slices_before(md.depth as int, mip as nat),
            offset == chain_bytes(*md, flags, mip as nat),
            packed_up_to(imgs@, offset as int, md.format),
            forall|m: int, s: int| 0 <= m < mip && 0 <= s < level_size(md.depth as int, m as nat)
                ==> #[trigger] placed(imgs@, *md, flags, m, 0, s),
        decreases md.mip_levels - mip,
    {
        let lv = levels[mip];
        let ghost b = level_bytes(*md, flags, mip as nat);
        proof {
            lemma_chain_within_total(*md, flags, (mip + 1) as nat);
            lemma_level_bytes_nonneg(*md, flags, mip as nat);
        }
        let mut s: usize = 0;
        while s < d
            invariant
                shape_ok(*md),
                md.is_volume(),
                levels@.len() == md.mip_levels,
                forall|m: int| 0 <= m < md.mip_levels ==> level_image_ok(*md, flags, m, #[trigger] levels@[m]),
                lv == levels@[mip as int],
                b == level_bytes(*md, flags, mip as nat),
                b >= 0,
                b == lv.slice_pitch,
                chain_bytes(*md, flags, mip as nat) + d * b <= usize::MAX,
                mip < md.mip_levels,
                s <= d,
                d == level_size(md.depth as int, mip as nat),
                imgs@.len() == slices_before(md.depth as int, mip as nat) + s,
                offset == chain_bytes(*md, flags, mip as nat) + s * b,
                packed_up_to(imgs@, offset as int, md.format),
                forall|m: int, s2: int| 0 <= m < mip && 0 <= s2 < level_size(md.depth as int, m as nat)
                    ==> #[trigger] placed(imgs@, *md, flags, m, 0, s2),
                forall|s2: int| 0 <= s2 < s ==> #[trigger] placed(imgs@, *md, flags, mip as int, 0, s2),
            decreases d - s,
        {
            proof {
                let si = s as int;
                let di = d as int;
                assert(si * b + b <= di * b) by (nonlinear_arith)
                    requires si + 1 <= di, b >= 0;
                assert(si * b + b == (si + 1) * b) by (nonlinear_arith);
            }
            let img = Image { offset: offset, ..lv };
            let ghost before = imgs@;
            imgs.push(img);
            proof {
                assert forall|m: int, s2: int| 0 <= m < mip && 0 <= s2 < level_size(md.depth as int, m as nat)
                    implies #[trigger] placed(imgs@, *md, flags, m, 0, s2) by {
                    assert(placed(before, *md, flags, m, 0, s2));
                    assert(imgs@[md.index_of(m, 0, s2)] == before[md.index_of(m, 0, s2)]);
                }
                assert forall|s2: int| 0 <= s2 < s + 1
                    implies #[trigger] placed(imgs@, *md, flags, mip as int, 0, s2) by {
                    if s2 < s {
                        assert(placed(before, *md, flags, mip as int, 0, s2));
                        assert(imgs@[md.index_of(mip as int, 0, s2)] == before[md.index_of(mip as int, 0, s2)]);
                    } else {
                        assert(level_image_ok(*md, flags, mip as int, levels@[mip as int]));
                        assert(imgs@[md.index_of(mip as int, 0, s2)] == img);
                    }
                }
            }
            offset = offset + lv.slice_pitch;
            s = s + 1;
        }
        if d > 1 {
            d = d / 2;
        }
        mip = mip + 1;
    }
    imgs
}

proof fn lemma_count_positive(md: TexMetadata)
    requires
        md.valid(),
    ensures
        md.subresource_count() >= 1,
{
    if md.is_volume() {
        lemma_slices_before_monotone(md.depth as int, 0, md.mip_levels as nat);
        lemma_level_size_positive(md.depth as int, 0);
    } else {
        let a = md.array_size as int;
        let m = md.mip_levels as int;
        assert(a * m >= 1) by (nonlinear_arith)
            requires a >= 1, m >= 1;
    }
}

/// `mips`, or the full chain for `extent` when `mips` is 0.
pub open spec fn resolve_mips(mips: usize, extent: int) -> usize {
    if mips == 0 {
        full_mip_count(extent) as usize
    } else {
        mips
    }
}

pub open spec fn shape_1d(fmt: DxgiFormat, length: usize, array_size: usize, mips: usize) -> TexMetadata {
    TexMetadata {
        width: length,
        height: 1,
        depth: 1,
        array_size: array_size,
        mip_levels: resolve_mips(mips, length as int),
        misc_flags: 0,
        misc_flags2: 0,
        format: fmt,
        dimension: TexDimension::Texture1D,
    }
}

pub open spec fn shape_2d(
    fmt: DxgiFormat,
    width: usize,
    height: usize,
    array_size: usize,
    mips: usize,
    misc_flags: u32,
) -> TexMetadata {
    TexMetadata {
        width: width,
        height: height,
        depth: 1,
        array_size: array_size,
        mip_levels: resolve_mips(mips, if width >= height { width as int } else { height as int }),
        misc_flags: misc_flags,
        misc_flags2: 0,
        format: fmt,
        dimension: TexDimension::Texture2D,
    }
}

pub open spec fn shape_3d(fmt: DxgiFormat, width: usize, height: usize, depth: usize, mips: usize) -> TexMetadata {
    let wh = if width >= height { width as int } else { height as int };
    TexMetadata {
        width: width,
        height: height,
        depth: depth,
        array_size: 1,
        mip_levels: resolve_mips(mips, if depth as int > wh { depth as int } else { wh }),
        misc_flags: 0,
        misc_flags2: 0,
        format: fmt,
        dimension: TexDimension::Texture3D,
    }
}

/// Byte `k` of row `y` of an image stored at `base` with pitch `pitch`.
pub open spec fn row_byte(mem: Seq<u8>, base: int, pitch: int, y: int, k: int) -> u8 {
    mem[base + y * pitch + k]
}

/// The first `min(dst.row_pitch, view.row_pitch)` bytes of each of the
/// first `rows` rows of `dst` in `mem` equal those of `view` in `src`.
pub open spec fn rows_copied(mem: Seq<u8>, dst: Image, src: Seq<u8>, view: Image, rows: int) -> bool {
    forall|y: int, k: int|
        0 <= y < rows && 0 <= k < dst.row_pitch && k < view.row_pitch
            ==> #[trigger] row_byte(mem, dst.offset as int, dst.row_pitch as int, y, k)
            == row_byte(src, view.offset as int, view.row_pitch as int, y, k)
}

/// Source views of one format and one size.
pub open spec fn views_uniform(views: Seq<Image>) -> bool {
    forall|j: int| 0 <= j < views.len() ==> {
        &&& (#[trigger] views[j]).format == views[0].format
        &&& views[j].width == views[0].width
        &&& views[j].height == views[0].height
    }
}

/// Every row of every view lies within a source buffer of `len` bytes.
pub open spec fn views_in_bounds(views: Seq<Image>, rows: int, len: int) -> bool {
    forall|j: int| 0 <= j < views.len() ==> (#[trigger] views[j]).offset + rows * views[j].row_pitch <= len
}

/// Pitch rows of each view.
pub open spec fn view_rows(views: Seq<Image>) -> int {
    scanlines_of(views[0].format, views[0].height as int)
}

/// What a copy-in constructor returns for views `views` over a source of
/// `len` bytes, given the shape `md` they describe.
pub open spec fn copy_in_result(views: Seq<Image>, len: int, md: TexMetadata, flags: u32) -> Result<(), HResultError> {
    if !views_uniform(views) {
        Err(HResultError::FormatMismatch)
    } else if init_result(md, flags).is_err() {
        init_result(md, flags)
    } else if !views_in_bounds(views, view_rows(views), len) {
        Err(HResultError::InvalidArgument)
    } else {
        Ok(())
    }
}

/// Shape of an array built from views.
pub open spec fn array_shape(views: Seq<Image>, allow_1d: bool) -> TexMetadata {
    if allow_1d && views[0].height == 1 {
        shape_1d(views[0].format, views[0].width, views.len() as usize, 1)
    } else {
        shape_2d(views[0].format, views[0].width, views[0].height, views.len() as usize, 1, 0)
    }
}

proof fn lemma_partition_bound(imgs: Seq<Image>, len: int, i: int, j: int)
    requires
        partitions(imgs, len),
        0 <= i <= j < imgs.len(),
    ensures
        imgs[i].offset + imgs[i].slice_pitch <= len,
        i < j ==> imgs[i].offset + imgs[i].slice_pitch <= imgs[j].offset,
    decreases imgs.len() - i,
{
    if i < imgs.len() - 1 {
        lemma_partition_bound(imgs, len, i + 1, if j > i { j } else { i + 1 });
    }
}

/// Copies the first `min` bytes of each of `rows` rows of `view` in `src`
/// into `dst` in `mem`, leaving every byte outside `dst`'s rows alone.
fn copy_rows(mem: &mut Vec<u8>, dst: Image, src: &[u8], view: Image, rows: usize)
    requires
        dst.offset + rows * dst.row_pitch <= old(mem)@.len(),
        view.offset + rows * view.row_pitch <= src@.len(),
    ensures
        final(mem)@.len() == old(mem)@.len(),
        rows_copied(final(mem)@, dst, src@, view, rows as int),
        forall|p: int| 0 <= p < old(mem)@.len() && !(dst.offset <= p < dst.offset + rows * dst.row_pitch)
            ==> #[trigger] final(mem)@[p] == old(mem)@[p],
{
    let n = if dst.row_pitch < view.row_pitch { dst.row_pitch } else { view.row_pitch };
    let ghost start = old(mem)@;
    let ghost dend = dst.offset + rows * dst.row_pitch;
    let mem_len = mem.len();
    let src_len = src.len();
    let mut y: usize = 0;
    while y < rows
        invariant
            mem_len == start.len(),
            src_len == src@.len(),
            dst.offset + rows * dst.row_pitch <= start.len(),
            view.offset + rows * view.row_pitch <= src@.len(),
            dend == dst.offset + rows * dst.row_pitch,
            mem@.len() == start.len(),
            n <= dst.row_pitch && n <= view.row_pitch,
            n == dst.row_pitch || n == view.row_pitch,
            y <= rows,
            forall|y2: int, k: int| 0 <= y2 < y && 0 <= k < n
                ==> #[trigger] row_byte(mem@, dst.offset as int, dst.row_pitch as int, y2, k)
                == row_byte(src@, view.offset as int, view.row_pitch as int, y2, k),
            forall|p: int| 0 <= p < start.len() && !(dst.offset <= p < dend) ==> #[trigger] mem@[p] == start[p],
        decreases rows - y,
    {
        proof {
            let yi = y as int;
            let r = rows as int;
            let dp = dst.row_pitch as int;
            let vp = view.row_pitch as int;
            assert(yi * dp + dp <= r * dp) by (nonlinear_arith) requires yi < r, dp >= 0;
            assert(yi * vp + vp <= r * vp) by (nonlinear_arith) requires yi < r, vp >= 0;
        }
        let dbase = dst.offset + y * dst.row_pitch;
        let sbase = view.offset + y * view.row_pitch;
        let ghost row_start = mem@;
        let mut k: usize = 0;
        while k < n
            invariant
                dbase + n <= start.len(),
                sbase + n <= src@.len(),
                mem_len == start.len(),
                src_len == src@.len(),
                dbase == dst.offset + y * dst.row_pitch,
                sbase == view.offset + y * view.row_pitch,
                mem@.len() == start.len(),
                row_start.len() == start.len(),
                k <= n,
                forall|k2: int| 0 <= k2 < k ==> #[trigger] mem@[dbase + k2] == src@[sbase + k2],
                forall|p: int| 0 <= p < start.len() && !(dbase <= p < dbase + k) ==> #[trigger] mem@[p] == row_start[p],
            decreases n - k,
        {
            mem.set(dbase + k, src[sbase + k]);
            k = k + 1;
        }
        proof {
            let yi = y as int;
            let dp = dst.row_pitch as int;
            assert forall|y2: int, k2: int| 0 <= y2 < yi + 1 && 0 <= k2 < n
                implies #[trigger] row_byte(mem@, dst.offset as int, dp, y2, k2)
                == row_byte(src@, view.offset as int, view.row_pitch as int, y2, k2) by {
                if y2 < yi {
                    assert(y2 * dp + k2 < yi * dp) by (nonlinear_arith) requires y2 < yi, k2 < n, n <= dp;
                    assert(row_byte(row_start, dst.offset as int, dp, y2, k2)
                        == row_byte(src@, view.offset as int, view.row_pitch as int, y2, k2));
                } else {
                    assert(mem@[dbase + k2] == src@[sbase + k2]);
                }
            }
            assert forall|p: int| 0 <= p < start.len() && !(dst.offset <= p < dend)
                implies #[trigger] mem@[p] == start[p] by {
                assert(yi * dp + dp <= rows * dp) by (nonlinear_arith) requires yi < rows, dp >= 0;
                assert(mem@[p] == row_start[p]);
            }
        }
        y = y + 1;
    }
}

fn check_uniform(views: &[Image]) -> (r: bool)
    requires
        views@.len() > 0,
    ensures
        r == views_uniform(views@),
{
    let v0 = views[0];
    let mut j: usize = 0;
    while j < views.len()
        invariant
            views@.len() > 0,
            v0 == views@[0],
            j <= views@.len(),
            forall|i: int| 0 <= i < j ==> {
                &&& (#[trigger] views@[i]).format == v0.format
                &&& views@[i].width == v0.width
                &&& views@[i].height == v0.height
            },
        decreases views@.len() - j,
    {
        let v = views[j];
        if v.format != v0.format || v.width != v0.width || v.height != v0.height {
            return false;
        }
        j = j + 1;
    }
    true
}

fn check_views_in_bounds(views: &[Image], rows: u128, len: usize) -> (r: bool)
    ensures
        r == views_in_bounds(views@, rows as int, len as int),
{
    let mut j: usize = 0;
    while j < views.len()
        invariant
            j <= views@.len(),
            forall|i: int| 0 <= i < j ==> (#[trigger] views@[i]).offset + rows * views@[i].row_pitch <= len,
        decreases views@.len() - j,
    {
        let v = views[j];
        match rows.checked_mul(v.row_pitch as u128) {
            None => {
                return false;
            },
            Some(span) => match span.checked_add(v.offset as u128) {
                None => {
                    return false;
                },
                Some(end) => {
                    if end > len as u128 {
                        return false;
                    }
                },
            },
        }
        j = j + 1;
    }
    true
}

/// Formats whose alpha this container decodes: bytes per pixel, the byte
/// that holds the alpha bits within a pixel, and the mask of those bits,
/// which are all set when opaque. Other formats with alpha (floating
/// point, 16-bit, block-compressed, video) are not decoded, and a scan of
/// them reports `false`.
pub open spec fn alpha_byte_layout(f: DxgiFormat) -> Option<(int, int, u8)> {
    if (27 <= f <= 30) || f == 87 || f == 90 || f == 91 {
        Some((4, 3, 0xffu8))
    } else if f == 24 || f == 25 {
        Some((4, 3, 0xc0u8))
    } else if f == 65 {
        Some((1, 0, 0xffu8))
    } else if f == 86 {
        Some((2, 1, 0x80u8))
    } else if f == 115 {
        Some((2, 1, 0xf0u8))
    } else {
        None
    }
}

fn alpha_layout(f: DxgiFormat) -> (r: Option<(usize, usize, u8)>)
    ensures
        r matches Some((stride, pos, mask)) ==> alpha_byte_layout(f) == Some((stride as int, pos as int, mask))
            && 1 <= stride <= 4 && pos < stride,
        r.is_none() == alpha_byte_layout(f).is_none(),
{
    if (27 <= f && f <= 30) || f == 87 || f == 90 || f == 91 {
        Some((4, 3, 0xff))
    } else if f == 24 || f == 25 {
        Some((4, 3, 0xc0))
    } else if f == 65 {
        Some((1, 0, 0xff))
    } else if f == 86 {
        Some((2, 1, 0x80))
    } else if f == 115 {
        Some((2, 1, 0xf0))
    } else {
        None
    }
}

/// Rows wide enough for `width` pixels of `stride` bytes, and a slice deep
/// enough for `height` rows.
pub open spec fn scannable(img: Image, stride: int) -> bool {
    img.width * stride <= img.row_pitch && img.row_pitch * img.height <= img.slice_pitch
}

/// Every pixel of `img` has all alpha bits set.
pub open spec fn image_opaque(mem: Seq<u8>, img: Image, stride: int, pos: int, mask: u8) -> bool {
    forall|y: int, x: int| 0 <= y < img.height && 0 <= x < img.width
        ==> #[trigger] row_byte(mem, img.offset as int, img.row_pitch as int, y, x * stride + pos) & mask == mask
}

fn scan_alpha(mem: &Vec<u8>, img: Image, stride: usize, pos: usize, mask: u8) -> (r: bool)
    requires
        img.offset + img.slice_pitch <= mem@.len(),
        1 <= stride <= 4,
        pos < stride,
    ensures
        r == (scannable(img, stride as int) && image_opaque(mem@, img, stride as int, pos as int, mask)),
{
    let wide = match img.width.checked_mul(stride) {
        None => {
            return false;
        },
        Some(b) => b,
    };
    if wide > img.row_pitch {
        return false;
    }
    match img.row_pitch.checked_mul(img.height) {
        None => {
            return false;
        },
        Some(t) => {
            if t > img.slice_pitch {
                return false;
            }
        },
    }
    let mem_len = mem.len();
    let mut y: usize = 0;
    while y < img.height
        invariant
            mem_len == mem@.len(),
            img.offset + img.slice_pitch <= mem@.len(),
            1 <= stride <= 4,
            pos < stride,
            scannable(img, stride as int),
            y <= img.height,
            forall|y2: int, x: int| 0 <= y2 < y && 0 <= x < img.width
                ==> #[trigger] row_byte(mem@, img.offset as int, img.row_pitch as int, y2, x * stride + pos) & mask == mask,
        decreases img.height - y,
    {
        proof {
            let yi = y as int;
            let rp = img.row_pitch as int;
            assert(yi * rp + rp <= rp * img.height) by (nonlinear_arith)
                requires yi < img.height, rp >= 0;
        }
        let base = img.offset + y * img.row_pitch;
        let mut x: usize = 0;
        while x < img.width
            invariant
                mem_len == mem@.len(),
                img.offset + img.slice_pitch <= mem@.len(),
                1 <= stride <= 4,
                pos < stride,
                scannable(img, stride as int),
                y < img.height,
                base == img.offset + y * img.row_pitch,
                base + img.row_pitch <= mem@.len(),
                x <= img.width,
                forall|y2: int, x2: int| 0 <= y2 < y && 0 <= x2 < img.width
                    ==> #[trigger] row_byte(mem@, img.offset as int, img.row_pitch as int, y2, x2 * stride + pos) & mask == mask,
                forall|x2: int| 0 <= x2 < x
                    ==> #[trigger] row_byte(mem@, img.offset as int, img.row_pitch as int, y as int, x2 * stride + pos) & mask == mask,
            decreases img.width - x,
        {
            proof {
                let xi = x as int;
                let s = stride as int;
                assert(xi * s + s <= img.width * s) by (nonlinear_arith)
                    requires xi < img.width, s >= 0;
            }
            if mem[base + x * stride + pos] & mask != mask {
                proof {
                    assert(row_byte(mem@, img.offset as int, img.row_pitch as int, y as int, x * stride + pos) & mask != mask);
                }
                return false;
            }
            x = x + 1;
        }
        y = y + 1;
    }
    true
}

impl ScratchImage {
    pub closed spec fn metadata_view(&self) -> TexMetadata {
        self.metadata
    }

    pub closed spec fn images_view(&self) -> Seq<Image> {
        self.images@
    }

    pub closed spec fn pixels_view(&self) -> Seq<u8> {
        self.memory@
    }

    pub open spec fn is_empty(&self) -> bool {
        &&& self.images_view().len() == 0
        &&& self.pixels_view().len() == 0
        &&& self.metadata_view() == empty_metadata()
    }

    /// Either empty, or holding one descriptor per subresource of a valid
    /// shape, all of its format, partitioning the buffer.
    pub open spec fn wf(&self) -> bool {
        ||| self.is_empty()
        ||| {
            &&& self.metadata_view().valid()
            &&& self.images_view().len() == self.metadata_view().subresource_count()
            &&& partitions(self.images_view(), self.pixels_view().len() as int)
            &&& forall|j: int| 0 <= j < self.images_view().len()
                ==> (#[trigger] self.images_view()[j]).format == self.metadata_view().format
        }
    }

    /// Every subresource has the geometry of its mip level, with pitches
    /// computed under `flags`.
    pub open spec fn laid_out(&self, md: TexMetadata, flags: u32) -> bool {
        &&& self.wf()
        &&& !self.is_empty()
        &&& self.metadata_view() == md
        &&& forall|m: int, i: int, s: int| #[trigger] md.valid_coord(m, i, s)
            ==> level_image_ok(md, flags, m, self.images_view()[md.index_of(m, i, s)])
    }

    /// The state after initializing with shape `md` under `flags` returned `r`.
    pub open spec fn initialized_as(&self, r: Result<(), HResultError>, md: TexMetadata, flags: u32) -> bool {
        &&& self.wf()
        &&& r == init_result(md, flags)
        &&& r.is_ok() ==> self.laid_out(md, flags)
        &&& r.is_ok() ==> self.pixels_view().len() == total_bytes(md, flags)
        &&& r.is_ok() ==> forall|k: int| 0 <= k < self.pixels_view().len() ==> #[trigger] self.pixels_view()[k] == 0u8
        &&& r.is_err() ==> self.is_empty()
    }

    /// An empty container.
    pub fn new() -> (r: Self)
        ensures
            r.is_empty(),
            r.wf(),
    {
        ScratchImage {
            metadata: TexMetadata {
                width: 0,
                height: 0,
                depth: 0,
                array_size: 0,
                mip_levels: 0,
                misc_flags: 0,
                misc_flags2: 0,
                format: DXGI_FORMAT_UNKNOWN,
                dimension: TexDimension::Texture2D,
            },
            images: Vec::new(),
            memory: Vec::new(),
        }
    }

    /// Frees the buffer and returns the container to its empty state.
    pub fn release(&mut self)
        ensures
            final(self).is_empty(),
            final(self).wf(),
    {
        *self = ScratchImage::new();
    }

    /// Lays out every subresource of shape `mdata` under pitch flags
    /// `flags` in one zero-filled buffer. Any earlier content is released
    /// first; on failure the container is left empty.
    pub fn initialize(&mut self, mdata: &TexMetadata, flags: u32) -> (r: Result<(), HResultError>)
        ensures
            final(self).initialized_as(r, *mdata, flags),
    {
        self.release();
        if !check_shape(mdata) {
            return Err(HResultError::InvalidArgument);
        }
        let (levels, _subresources, total) = match plan_levels(mdata, flags) {
            Err(e) => {
                return Err(e);
            },
            Ok(p) => p,
        };
        if total > isize::MAX as usize {
            return Err(HResultError::OutOfMemory);
        }
        let imgs = match mdata.dimension {
            TexDimension::Texture3D => build_volume(mdata, flags, &levels, total),
            _ => build_array(mdata, flags, &levels, total),
        };
        proof {
            lemma_count_positive(*mdata);
        }
        self.memory = vec![0u8; total];
        self.images = imgs;
        self.metadata = *mdata;
        proof {
            let md = *mdata;
            assert forall|m: int, i: int, s: int| #[trigger] md.valid_coord(m, i, s)
                implies level_image_ok(md, flags, m, self.images@[md.index_of(m, i, s)]) by {
                assert(placed(imgs@, md, flags, m, i, s));
            }
        }
        Ok(())
    }

    /// A 1D texture (array) of `length` texels; `mip_levels == 0` asks for
    /// the full chain.
    pub fn initialize_1d(
        &mut self,
        fmt: DxgiFormat,
        length: usize,
        array_size: usize,
        mip_levels: usize,
        flags: u32,
    ) -> (r: Result<(), HResultError>)
        ensures
            final(self).initialized_as(r, shape_1d(fmt, length, array_size, mip_levels), flags),
    {
        let mips = if mip_levels == 0 { count_mips(length) } else { mip_levels };
        let md = TexMetadata {
            width: length,
            height: 1,
            depth: 1,
            array_size: array_size,
            mip_levels: mips,
            misc_flags: 0,
            misc_flags2: 0,
            format: fmt,
            dimension: TexDimension::Texture1D,
        };
        self.initialize(&md, flags)
    }

    /// A 2D texture (array); `mip_levels == 0` asks for the full chain.
    pub fn initialize_2d(
        &mut self,
        fmt: DxgiFormat,
        width: usize,
        height: usize,
        array_size: usize,
        mip_levels: usize,
        flags: u32,
    ) -> (r: Result<(), HResultError>)
        ensures
            final(self).initialized_as(r, shape_2d(fmt, width, height, array_size, mip_levels, 0), flags),
    {
        let extent = if width >= height { width } else { height };
        let mips = if mip_levels == 0 { count_mips(extent) } else { mip_levels };
        let md = TexMetadata {
            width: width,
            height: height,
            depth: 1,
            array_size: array_size,
            mip_levels: mips,
            misc_flags: 0,
            misc_flags2: 0,
            format: fmt,
            dimension: TexDimension::Texture2D,
        };
        self.initialize(&md, flags)
    }

    /// A volume texture; `mip_levels == 0` asks for the full chain.
    pub fn initialize_3d(
        &mut self,
        fmt: DxgiFormat,
        width: usize,
        height: usize,
        depth: usize,
        mip_levels: usize,
        flags: u32,
    ) -> (r: Result<(), HResultError>)
        ensures
            final(self).initialized_as(r, shape_3d(fmt, width, height, depth, mip_levels), flags),
    {
        let wh = if width >= height { width } else { height };
        let extent = if depth > wh { depth } else { wh };
        let mips = if mip_levels == 0 { count_mips(extent) } else { mip_levels };
        let md = TexMetadata {
            width: width,
            height: height,
            depth: depth,
            array_size: 1,
            mip_levels: mips,
            misc_flags: 0,
            misc_flags2: 0,
            format: fmt,
            dimension: TexDimension::Texture3D,
        };
        self.initialize(&md, flags)
    }

    /// An array of `cubes` cube maps, six faces each; `mip_levels == 0`
    /// asks for the full chain. `ArithmeticOverflow` when the face count
    /// does not fit.
    pub fn initialize_cube(
        &mut self,
        fmt: DxgiFormat,
        width: usize,
        height: usize,
        cubes: usize,
        mip_levels: usize,
        flags: u32,
    ) -> (r: Result<(), HResultError>)
        ensures
            cubes * 6 > usize::MAX ==> r == Err::<(), HResultError>(HResultError::ArithmeticOverflow)
                && final(self).is_empty() && final(self).wf(),
            cubes * 6 <= usize::MAX ==> final(self).initialized_as(
                r,
                shape_2d(fmt, width, height, (cubes * 6) as usize, mip_levels, TEX_MISC_TEXTURECUBE),
                flags,
            ),
    {
        let faces = match cubes.checked_mul(6) {
            None => {
                self.release();
                return Err(HResultError::ArithmeticOverflow);
            },
            Some(f) => f,
        };
        let extent = if width >= height { width } else { height };
        let mips = if mip_levels == 0 { count_mips(extent) } else { mip_levels };
        let md = TexMetadata {
            width: width,
            height: height,
            depth: 1,
            array_size: faces,
            mip_levels: mips,
            misc_flags: TEX_MISC_TEXTURECUBE,
            misc_flags2: 0,
            format: fmt,
            dimension: TexDimension::Texture2D,
        };
        self.initialize(&md, flags)
    }

    /// The state after a copy-in constructor for `views` over `src`, with
    /// shape `md`, returned `r`.
    pub open spec fn copied_in_as(
        &self,
        r: Result<(), HResultError>,
        views: Seq<Image>,
        src: Seq<u8>,
        md: TexMetadata,
        flags: u32,
    ) -> bool {
        &&& self.wf()
        &&& r == copy_in_result(views, src.len() as int, md, flags)
        &&& r.is_ok() ==> self.laid_out(md, flags)
        &&& r.is_ok() ==> forall|j: int| 0 <= j < views.len() ==> rows_copied(
            self.pixels_view(),
            #[trigger] self.images_view()[j],
            src,
            views[j],
            view_rows(views),
        )
        &&& r.is_err() ==> self.is_empty()
    }

    proof fn lemma_single_level(&self, md: TexMetadata, flags: u32)
        requires
            self.laid_out(md, flags),
            md.mip_levels == 1,
        ensures
            forall|j: int| 0 <= j < self.images_view().len()
                ==> level_image_ok(md, flags, 0, #[trigger] self.images_view()[j]),
    {
        assert forall|j: int| 0 <= j < self.images_view().len()
            implies level_image_ok(md, flags, 0, #[trigger] self.images_view()[j]) by {
            if md.is_volume() {
                let d = md.depth as int;
                assert(slices_before(d, 0) == 0);
                assert(level_size(d, 0) == d);
                assert(slices_before(d, 1) == d);
                assert(md.valid_coord(0, 0, j));
            } else {
                assert(j < md.array_size) by (nonlinear_arith)
                    requires j < md.array_size * md.mip_levels, md.mip_levels == 1;
                assert(md.valid_coord(0, j, 0));
            }
        }
    }

    /// Copies the rows of each view into the subresource of the same index.
    fn copy_views(&mut self, views: &[Image], src: &[u8], rows: usize)
        requires
            old(self).wf(),
            !old(self).is_empty(),
            old(self).images_view().len() == views@.len(),
            forall|j: int| 0 <= j < views@.len() ==> (#[trigger] old(self).images_view()[j]).slice_pitch
                == rows * old(self).images_view()[j].row_pitch,
            views_in_bounds(views@, rows as int, src@.len() as int),
        ensures
            final(self).wf(),
            final(self).metadata_view() == old(self).metadata_view(),
            final(self).images_view() == old(self).images_view(),
            final(self).pixels_view().len() == old(self).pixels_view().len(),
            forall|j: int| 0 <= j < views@.len() ==> rows_copied(
                final(self).pixels_view(),
                #[trigger] final(self).images_view()[j],
                src@,
                views@[j],
                rows as int,
            ),
    {
        let ghost imgs = self.images@;
        let ghost len = self.memory@.len();
        let mut j: usize = 0;
        while j < views.len()
            invariant
                self.images@ == imgs,
                self.metadata == old(self).metadata,
                self.memory@.len() == len,
                imgs == old(self).images@,
                len == old(self).memory@.len(),
                partitions(imgs, len as int),
                imgs.len() == views@.len(),
                forall|i: int| 0 <= i < views@.len() ==> (#[trigger] imgs[i]).slice_pitch == rows * imgs[i].row_pitch,
                views_in_bounds(views@, rows as int, src@.len() as int),
                j <= views@.len(),
                forall|i: int| 0 <= i < j ==> rows_copied(self.memory@, #[trigger] imgs[i], src@, views@[i], rows as int),
            decreases views@.len() - j,
        {
            let dst = self.images[j];
            let view = views[j];
            proof {
                lemma_partition_bound(imgs, len as int, j as int, j as int);
                assert(view.offset + rows * view.row_pitch <= src@.len());
            }
            let ghost before = self.memory@;
            copy_rows(&mut self.memory, dst, src, view, rows);
            proof {
                assert forall|i: int| 0 <= i < j + 1
                    implies rows_copied(self.memory@, #[trigger] imgs[i], src@, views@[i], rows as int) by {
                    if i < j {
                        lemma_partition_bound(imgs, len as int, i, j as int);
                        let d = imgs[i];
                        assert forall|y: int, k: int|
                            0 <= y < rows && 0 <= k < d.row_pitch && k < views@[i].row_pitch
                            implies #[trigger] row_byte(self.memory@, d.offset as int, d.row_pitch as int, y, k)
                            == row_byte(src@, views@[i].offset as int, views@[i].row_pitch as int, y, k) by {
                            let dp = d.row_pitch as int;
                            assert(y * dp + k < rows * dp) by (nonlinear_arith)
                                requires 0 <= y < rows, 0 <= k < dp;
                            assert(0 <= y * dp) by (nonlinear_arith)
                                requires 0 <= y, 0 <= dp;
                            assert(row_byte(before, d.offset as int, dp, y, k)
                                == row_byte(src@, views@[i].offset as int, views@[i].row_pitch as int, y, k));
                        }
                    }
                }
            }
            j = j + 1;
        }
    }

    fn initialize_from_views(
        &mut self,
        views: &[Image],
        src: &[u8],
        md: &TexMetadata,
        flags: u32,
    ) -> (r: Result<(), HResultError>)
        requires
            views@.len() > 0,
            md.mip_levels == 1,
            md.format == views@[0].format,
            md.height == views@[0].height,
            md.width == views@[0].width,
            md.subresource_count() == views@.len(),
        ensures
            final(self).copied_in_as(r, views@, src@, *md, flags),
    {
        if !check_uniform(views) {
            self.release();
            return Err(HResultError::FormatMismatch);
        }
        match self.initialize(md, flags) {
            Err(e) => {
                return Err(e);
            },
            Ok(()) => {},
        }
        let v0 = views[0];
        let rows = scanlines_wide(v0.format, v0.height);
        if !check_views_in_bounds(views, rows, src.len()) {
            self.release();
            return Err(HResultError::InvalidArgument);
        }
        proof {
            self.lemma_single_level(*md, flags);
            let i0 = self.images@[0];
            lemma_row_pitch_positive(md.format, md.width as int, flags);
            lemma_partition_bound(self.images@, self.memory@.len() as int, 0, 0);
            assert(rows <= i0.row_pitch * rows) by (nonlinear_arith)
                requires i0.row_pitch >= 1, rows >= 0;
            assert forall|j: int| 0 <= j < views@.len() implies (#[trigger] self.images@[j]).slice_pitch
                == rows * self.images@[j].row_pitch by {
                assert(level_image_ok(*md, flags, 0, self.images@[j]));
                let rp = self.images@[j].row_pitch as int;
                assert(rp * rows == rows * rp) by (nonlinear_arith);
            }
        }
        self.copy_views(views, src, rows as usize);
        Ok(())
    }

    /// A one-subresource texture holding a copy of `src_image`, whose bytes
    /// lie in `src`: 1D when `allow_1d` and its height is 1, else 2D.
    pub fn initialize_from_image(
        &mut self,
        src_image: &Image,
        src: &[u8],
        allow_1d: bool,
        flags: u32,
    ) -> (r: Result<(), HResultError>)
        ensures
            final(self).copied_in_as(r, seq![*src_image], src@, array_shape(seq![*src_image], allow_1d), flags),
    {
        let views = [*src_image];
        self.initialize_array_from_images(&views, src, allow_1d, flags)
    }

    /// A texture array with one item per view, each a copy of the view's
    /// rows in `src`. The views must agree in format and size.
    pub fn initialize_array_from_images(
        &mut self,
        images: &[Image],
        src: &[u8],
        allow_1d: bool,
        flags: u32,
    ) -> (r: Result<(), HResultError>)
        ensures
            images@.len() == 0 ==> r == Err::<(), HResultError>(HResultError::InvalidArgument)
                && final(self).is_empty() && final(self).wf(),
            images@.len() > 0 ==> final(self).copied_in_as(r, images@, src@, array_shape(images@, allow_1d), flags),
    {
        if images.len() == 0 {
            self.release();
            return Err(HResultError::InvalidArgument);
        }
        let v0 = images[0];
        let md = if allow_1d && v0.height == 1 {
            TexMetadata {
                width: v0.width,
                height: 1,
                depth: 1,
                array_size: images.len(),
                mip_levels: 1,
                misc_flags: 0,
                misc_flags2: 0,
                format: v0.format,
                dimension: TexDimension::Texture1D,
            }
        } else {
            TexMetadata {
                width: v0.width,
                height: v0.height,
                depth: 1,
                array_size: images.len(),
                mip_levels: 1,
                misc_flags: 0,
                misc_flags2: 0,
                format: v0.format,
                dimension: TexDimension::Texture2D,
            }
        };
        self.initialize_from_views(images, src, &md, flags)
    }

    /// An array of cube maps from six views per cube, faces in order.
    /// `FormatMismatch` unless the view count is a positive multiple of 6.
    pub fn initialize_cube_from_images(&mut self, images: &[Image], src: &[u8], flags: u32) -> (r: Result<
        (),
        HResultError,
    >)
        ensures
            (images@.len() == 0 || images@.len() % 6 != 0) ==> r == Err::<(), HResultError>(
                HResultError::FormatMismatch,
            ) && final(self).is_empty() && final(self).wf(),
            images@.len() > 0 && images@.len() % 6 == 0 ==> final(self).copied_in_as(
                r,
                images@,
                src@,
                shape_2d(images@[0].format, images@[0].width, images@[0].height, images@.len() as usize, 1, TEX_MISC_TEXTURECUBE),
                flags,
            ),
    {
        if images.len() == 0 || images.len() % 6 != 0 {
            self.release();
            return Err(HResultError::FormatMismatch);
        }
        let v0 = images[0];
        let md = TexMetadata {
            width: v0.width,
            height: v0.height,
            depth: 1,
            array_size: images.len(),
            mip_levels: 1,
            misc_flags: TEX_MISC_TEXTURECUBE,
            misc_flags2: 0,
            format: v0.format,
            dimension: TexDimension::Texture2D,
        };
        self.initialize_from_views(images, src, &md, flags)
    }

    /// A volume texture with one depth slice per view.
    pub fn initialize_3d_from_images(&mut self, images: &[Image], src: &[u8], flags: u32) -> (r: Result<
        (),
        HResultError,
    >)
        ensures
            images@.len() == 0 ==> r == Err::<(), HResultError>(HResultError::InvalidArgument)
                && final(self).is_empty() && final(self).wf(),
            images@.len() > 0 ==> final(self).copied_in_as(
                r,
                images@,
                src@,
                shape_3d(images@[0].format, images@[0].width, images@[0].height, images@.len() as usize, 1),
                flags,
            ),
    {
        if images.len() == 0 {
            self.release();
            return Err(HResultError::InvalidArgument);
        }
        let v0 = images[0];
        let md = TexMetadata {
            width: v0.width,
            height: v0.height,
            depth: images.len(),
            array_size: 1,
            mip_levels: 1,
            misc_flags: 0,
            misc_flags2: 0,
            format: v0.format,
            dimension: TexDimension::Texture3D,
        };
        proof {
            let d = md.depth as int;
            assert(slices_before(d, 0) == 0);
            assert(level_size(d, 0) == d);
            assert(slices_before(d, 1) == d);
        }
        self.initialize_from_views(images, src, &md, flags)
    }

    /// Whether every pixel of every subresource has a fully opaque alpha.
    /// `false` for an empty container; `true` for a format without alpha;
    /// for a format with alpha, decoded only where `alpha_byte_layout`
    /// gives its place, and `false` otherwise.
    pub fn is_alpha_all_opaque(&self) -> (r: bool)
        requires
            self.wf(),
        ensures
            r == (!self.is_empty() && (!alpha_spec(self.metadata_view().format) || match alpha_byte_layout(
                self.metadata_view().format,
            ) {
                None => false,
                Some((stride, pos, mask)) => forall|j: int| 0 <= j < self.images_view().len()
                    ==> scannable(#[trigger] self.images_view()[j], stride)
                    && image_opaque(self.pixels_view(), self.images_view()[j], stride, pos, mask),
            })),
    {
        if self.images.len() == 0 {
            return false;
        }
        let f = self.metadata.format;
        if !has_alpha(f) {
            return true;
        }
        let (stride, pos, mask) = match alpha_layout(f) {
            None => {
                return false;
            },
            Some(layout) => layout,
        };
        let mut j: usize = 0;
        while j < self.images.len()
            invariant
                self.wf(),
                !self.is_empty(),
                f == self.metadata.format,
                alpha_byte_layout(f) == Some((stride as int, pos as int, mask)),
                1 <= stride <= 4,
                pos < stride,
                j <= self.images@.len(),
                forall|i: int| 0 <= i < j ==> scannable(#[trigger] self.images@[i], stride as int)
                    && image_opaque(self.memory@, self.images@[i], stride as int, pos as int, mask),
            decreases self.images@.len() - j,
        {
            proof {
                lemma_partition_bound(self.images@, self.memory@.len() as int, j as int, j as int);
            }
            if !scan_alpha(&self.memory, self.images[j], stride, pos, mask) {
                proof {
                    let img = self.images_view()[j as int];
                    assert(!(scannable(img, stride as int) && image_opaque(self.pixels_view(), img, stride as int, pos as int, mask)));
                }
                return false;
            }
            j = j + 1;
        }
        true
    }

    /// Relabels every subresource with format `f` when `f` has the same
    /// layout as the current format; no byte moves. `None`, with nothing
    /// changed, when the container is empty or the layouts differ.
    pub fn override_format(&mut self, f: DxgiFormat) -> (r: Option<()>)
        requires
            old(self).wf(),
        ensures
            final(self).wf(),
            r.is_some() == (!old(self).is_empty() && same_layout(old(self).metadata_view().format, f)),
            r.is_none() ==> *final(self) == *old(self),
            r.is_some() ==> {
                &&& final(self).metadata_view() == (TexMetadata { format: f, ..old(self).metadata_view() })
                &&& final(self).pixels_view() == old(self).pixels_view()
                &&& final(self).images_view().len() == old(self).images_view().len()
                &&& forall|j: int| 0 <= j < old(self).images_view().len()
                    ==> #[trigger] final(self).images_view()[j] == (Image { format: f, ..old(self).images_view()[j] })
            },
    {
        if self.images.len() == 0 || !has_same_layout(self.metadata.format, f) {
            return None;
        }
        let ghost old_images = self.images@;
        let mut i: usize = 0;
        while i < self.images.len()
            invariant
                self.images@.len() == old_images.len(),
                self.metadata == old(self).metadata,
                self.memory == old(self).memory,
                old_images == old(self).images@,
                i <= old_images.len(),
                forall|j: int| 0 <= j < i ==> #[trigger] self.images@[j] == (Image { format: f, ..old_images[j] }),
                forall|j: int| i <= j < old_images.len() ==> #[trigger] self.images@[j] == old_images[j],
            decreases old_images.len() - i,
        {
            let img = self.images[i];
            self.images.set(i, Image { format: f, ..img });
            i = i + 1;
        }
        self.metadata.format = f;
        proof {
            let imgs = self.images@;
            assert forall|j: int| 0 <= j < imgs.len() - 1
                implies #[trigger] imgs[j].offset + imgs[j].slice_pitch == imgs[j + 1].offset by {
                assert(old_images[j].offset + old_images[j].slice_pitch == old_images[j + 1].offset);
            }
        }
        Some(())
    }

    pub fn get_metadata(&self) -> (r: &TexMetadata)
        ensures
            *r == self.metadata_view(),
    {
        &self.metadata
    }

    /// The descriptor of subresource `(mip, item, slice)`, or `None` when
    /// the container is empty or the coordinate is out of range.
    pub fn get_image(&self, mip: usize, item: usize, slice: usize) -> (r: Option<&Image>)
        requires
            self.wf(),
        ensures
            self.is_empty() ==> r.is_none(),
            !self.is_empty() && self.metadata_view().valid_coord(mip as int, item as int, slice as int)
                ==> r == Some(&self.images_view()[self.metadata_view().index_of(mip as int, item as int, slice as int)]),
            !self.metadata_view().valid_coord(mip as int, item as int, slice as int) ==> r.is_none(),
    {
        if self.images.len() == 0 {
            return None;
        }
        match self.metadata.compute_index(mip, item, slice) {
            None => None,
            Some(index) => {
                proof {
                    if self.metadata.valid_coord(mip as int, item as int, slice as int) {
                        lemma_index_in_range(self.metadata, mip as int, item as int, slice as int);
                    }
                }
                Some(&self.images[index])
            },
        }
    }

    pub fn get_images(&self) -> (r: &[Image])
        ensures
            r@ == self.images_view(),
    {
        self.images.as_slice()
    }

    pub fn get_pixels(&self) -> (r: &[u8])
        ensures
            r@ == self.pixels_view(),
    {
        self.memory.as_slice()
    }

    /// The pixel bytes, writable in place; the buffer keeps its length.
    pub fn get_pixels_mut(&mut self) -> (r: &mut [u8])
        ensures
            r@ == old(self).pixels_view(),
            final(self).pixels_view() == final(r)@,
            final(self).metadata_view() == old(self).metadata_view(),
            final(self).images_view() == old(self).images_view(),
    {
        self.memory.as_mut_slice()
    }
}

impl Default for ScratchImage {
    fn default() -> (r: Self)
        ensures
            r.is_empty(),
    {
        ScratchImage::new()
    }
}


/// A single-subresource 2D texture initialized under `flags` has one
/// descriptor, at offset 0, whose pitches are the ones `compute_pitch`
/// gives for its format and size, and a buffer of exactly one slice.
pub proof fn lemma_single_image_pitch(s: ScratchImage, fmt: DxgiFormat, w: usize, h: usize, flags: u32)
    requires
        s.initialized_as(Ok(()), shape_2d(fmt, w, h, 1, 1, 0), flags),
    ensures
        bpp_of(fmt) > 0,
        pitch_fits(fmt, w as int, h as int, flags),
        s.images_view().len() == 1,
        s.images_view()[0].offset == 0,
        s.images_view()[0].row_pitch == row_pitch_of(fmt, w as int, flags),
        s.images_view()[0].slice_pitch == slice_pitch_of(fmt, w as int, h as int, flags),
        s.pixels_view().len() == slice_pitch_of(fmt, w as int, h as int, flags),
{
    let md = shape_2d(fmt, w, h, 1, 1, 0);
    assert(md.valid_coord(0, 0, 0));
    assert(md.index_of(0, 0, 0) == 0);
    assert(level_size(w as int, 0) == w);
    assert(level_size(h as int, 0) == h);
    assert(pitch_fits(md.format, level_size(md.width as int, 0), level_size(md.height as int, 0), flags));
    assert(chain_bytes(md, flags, 0) == 0);
    assert(chain_bytes(md, flags, 1) == level_bytes(md, flags, 0));
}

/// Every released container looks the same, so releasing twice is the same
/// as releasing once; and no coordinate names a subresource of it.
pub proof fn lemma_release_idempotent(a: ScratchImage, b: ScratchImage)
    requires
        a.is_empty(),
        b.is_empty(),
    ensures
        a.metadata_view() == b.metadata_view(),
        a.images_view() == b.images_view(),
        a.pixels_view() == b.pixels_view(),
        forall|m: int, i: int, s: int| !#[trigger] a.metadata_view().valid_coord(m, i, s),
{
    assert(a.images_view() =~= b.images_view());
    assert(a.pixels_view() =~= b.pixels_view());
}


/// Relabelling a laid-out container with a format of the same layout, as
/// `override_format` does, leaves it laid out for the new format under the
/// same pitch flags.
pub proof fn lemma_override_keeps_layout(
    before: ScratchImage,
    after: ScratchImage,
    f: DxgiFormat,
    md: TexMetadata,
    flags: u32,
)
    requires
        before.laid_out(md, flags),
        same_layout(md.format, f),
        after.wf(),
        after.metadata_view() == (TexMetadata { format: f, ..md }),
        after.pixels_view() == before.pixels_view(),
        after.images_view().len() == before.images_view().len(),
        forall|j: int| 0 <= j < before.images_view().len()
            ==> #[trigger] after.images_view()[j] == (Image { format: f, ..before.images_view()[j] }),
    ensures
        after.laid_out(TexMetadata { format: f, ..md }, flags),
{
    let md2 = TexMetadata { format: f, ..md };
    assert forall|m: int, i: int, s: int| #[trigger] md2.valid_coord(m, i, s)
        implies level_image_ok(md2, flags, m, after.images_view()[md2.index_of(m, i, s)]) by {
        assert(md.valid_coord(m, i, s));
        lemma_index_in_range(md, m, i, s);
        let k = md.index_of(m, i, s);
        assert(after.images_view()[k] == (Image { format: f, ..before.images_view()[k] }));
        lemma_same_layout_same_pitch(
            md.format,
            f,
            level_size(md.width as int, m as nat),
            level_size(md.height as int, m as nat),
            flags,
        );
    }
}


/// Writing pixel bytes in place, as through `get_pixels_mut`, keeps a
/// container well formed: only the buffer's length enters `wf`, and an
/// indexed write never changes it.
pub proof fn lemma_pixel_writes_keep_wf(before: ScratchImage, after: ScratchImage)
    requires
        before.wf(),
        after.metadata_view() == before.metadata_view(),
        after.images_view() == before.images_view(),
        after.pixels_view().len() == before.pixels_view().len(),
    ensures
        after.wf(),
{
}

} // verus!
