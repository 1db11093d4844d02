//! Texture shape: dimensions, array and mip structure, and the mapping from
//! a (mip, item, slice) coordinate to a linear subresource index.
use vstd::prelude::*;
use crate::format::DxgiFormat;

verus! {

/// Misc flag: the array holds cube maps, six faces each.
pub const TEX_MISC_TEXTURECUBE: u32 = 0x4;

/// Alpha modes carried in `misc_flags2`.
pub const TEX_ALPHA_MODE_UNKNOWN: u32 = 0;
pub const TEX_ALPHA_MODE_STRAIGHT: u32 = 1;
pub const TEX_ALPHA_MODE_PREMULTIPLIED: u32 = 2;
pub const TEX_ALPHA_MODE_OPAQUE: u32 = 3;
pub const TEX_ALPHA_MODE_CUSTOM: u32 = 4;

#[derive(Debug, Clone, Copy, PartialEq, Eq, Structural)]
pub enum TexDimension {
    Texture1D,
    Texture2D,
    Texture3D,
}

/// The shape of a texture.
#[derive(Debug, Clone, Copy, PartialEq, Eq, Structural)]
pub struct TexMetadata {
    pub width: usize,
    pub height: usize,
    pub depth: usize,
    pub array_size: usize,
    pub mip_levels: usize,
    pub misc_flags: u32,
    pub misc_flags2: u32,
    pub format: DxgiFormat,
    pub dimension: TexDimension,
}

/// Size of a dimension at mip level `m`: halved per level, never below 1.
pub open spec fn level_size(n: int, m: nat) -> int
    decreases m,
{
    if m == 0 {
        n
    } else {
        let p = level_size(n, (m - 1) as nat);
        if p > 1 {
            p / 2
        } else {
            1
        }
    }
}

/// Number of depth slices in all mip levels below `mip`.
pub open spec fn slices_before(depth: int, mip: nat) -> int
    decreases mip,
{
    if mip == 0 {
        0
    } else {
        slices_before(depth, (mip - 1) as nat) + level_size(depth, (mip - 1) as nat)
    }
}

/// Length of a full mip chain for a largest dimension of `n`:
/// `floor(log2(n)) + 1`.
pub open spec fn full_mip_count(n: int) -> nat
    decreases n,
{
    if n <= 1 {
        1
    } else {
        1 + full_mip_count(n / 2)
    }
}

impl TexMetadata {
    pub open spec fn is_cube(&self) -> bool {
        self.misc_flags & TEX_MISC_TEXTURECUBE != 0
    }

    pub open spec fn is_volume(&self) -> bool {
        self.dimension == TexDimension::Texture3D
    }

    /// The invariants of a shape.
    pub open spec fn valid(&self) -> bool {
        &&& self.mip_levels >= 1
        &&& self.array_size >= 1
        &&& self.width >= 1
        &&& self.height >= 1
        &&& self.depth >= 1
        &&& self.depth > 1 ==> self.is_volume()
        &&& self.is_volume() ==> self.array_size == 1
        &&& self.dimension == TexDimension::Texture1D ==> self.height == 1
        &&& self.is_cube() ==> !self.is_volume() && self.array_size % 6 == 0
    }

    /// Number of subresources.
    pub open spec fn subresource_count(&self) -> int {
        if self.is_volume() {
            slices_before(self.depth as int, self.mip_levels as nat)
        } else {
            self.array_size * self.mip_levels
        }
    }

    /// Whether `(mip, item, slice)` names a subresource.
    pub open spec fn valid_coord(&self, mip: int, item: int, slice: int) -> bool {
        &&& 0 <= mip < self.mip_levels
        &&& if self.is_volume() {
            item == 0 && 0 <= slice < level_size(self.depth as int, mip as nat)
        } else {
            0 <= item < self.array_size && slice == 0
        }
    }

    /// Linear index of a subresource.
    pub open spec fn index_of(&self, mip: int, item: int, slice: int) -> int {
        if self.is_volume() {
            slices_before(self.depth as int, mip as nat) + slice
        } else {
            item * self.mip_levels + mip
        }
    }

    /// Whether some valid coordinate has linear index `k`.
    pub open spec fn index_reached(&self, k: int) -> bool {
        exists|m: int, i: int, s: int| #[trigger] self.valid_coord(m, i, s) && self.index_of(m, i, s) == k
    }

    /// Linear index of subresource `(mip, item, slice)`, or `None` when the
    /// coordinate is out of range.
    pub fn compute_index(&self, mip: usize, item: usize, slice: usize) -> (r: Option<usize>)
        requires
            self.valid(),
            self.subresource_count() <= usize::MAX,
        ensures
            self.valid_coord(mip as int, item as int, slice as int) ==> r == Some(
                self.index_of(mip as int, item as int, slice as int) as usize,
            ),
            !self.valid_coord(mip as int, item as int, slice as int) ==> r.is_none(),
            r matches Some(i) ==> i < self.subresource_count(),
    {
        if mip >= self.mip_levels {
            return None;
        }
        match self.dimension {
            TexDimension::Texture3D => {
                if item > 0 {
                    return None;
                }
                let mut index: usize = 0;
                let mut d = self.depth;
                let mut level: usize = 0;
                while level < mip
                    invariant
                        self.valid(),
                        self.is_volume(),
                        self.subresource_count() <= usize::MAX,
                        mip < self.mip_levels,
                        level <= mip,
                        index == slices_before(self.depth as int, level as nat),
                        d == level_size(self.depth as int, level as nat),
                    decreases mip - level,
                {
                    proof {
                        lemma_slices_before_monotone(self.depth as int, (level + 1) as nat, self.mip_levels as nat);
                    }
                    index = index + d;
                    if d > 1 {
                        d = d / 2;
                    }
                    level = level + 1;
                }
                if slice >= d {
                    return None;
                }
                proof {
                    lemma_slices_before_monotone(self.depth as int, (mip + 1) as nat, self.mip_levels as nat);
                }
                Some(index + slice)
            },
            _ => {
                if slice > 0 || item >= self.array_size {
                    return None;
                }
                proof { lemma_flat_index_bound(item as int, mip as int, self.array_size as int, self.mip_levels as int); }
                Some(item * self.mip_levels + mip)
            },
        }
    }
}

proof fn lemma_flat_index_bound(item: int, mip: int, a: int, m: int)
    requires
        0 <= item < a,
        0 <= mip < m,
    ensures
        0 <= item * m + mip < a * m,
{
    assert(item * m + mip < a * m) by (nonlinear_arith)
        requires 0 <= item < a, 0 <= mip < m;
    assert(0 <= item * m) by (nonlinear_arith)
        requires 0 <= item, 0 <= m;
}

/// A dimension of at least 1 stays at least 1 at every level.
pub proof fn lemma_level_size_positive(n: int, m: nat)
    requires
        n >= 1,
    ensures
        level_size(n, m) >= 1,
    decreases m,
{
    if m > 0 {
        lemma_level_size_positive(n, (m - 1) as nat);
    }
}

pub proof fn lemma_slices_before_monotone(depth: int, a: nat, b: nat)
    requires
        depth >= 1,
        a <= b,
    ensures
        slices_before(depth, a) <= slices_before(depth, b),
        a < b ==> slices_before(depth, a) + level_size(depth, a) <= slices_before(depth, b),
    decreases b - a,
{
    if a < b {
        lemma_level_size_positive(depth, (b - 1) as nat);
        lemma_slices_before_monotone(depth, a, (b - 1) as nat);
    }
}


proof fn lemma_find_level(depth: int, n: nat, i: int) -> (m: nat)
    requires
        depth >= 1,
        0 <= i < slices_before(depth, n),
    ensures
        m < n,
        slices_before(depth, m) <= i < slices_before(depth, m) + level_size(depth, m),
    decreases n,
{
    if i >= slices_before(depth, (n - 1) as nat) {
        (n - 1) as nat
    } else {
        lemma_find_level(depth, (n - 1) as nat, i)
    }
}

pub proof fn lemma_index_in_range(md: TexMetadata, mip: int, item: int, slice: int)
    requires
        md.valid(),
        md.valid_coord(mip, item, slice),
    ensures
        0 <= md.index_of(mip, item, slice) < md.subresource_count(),
{
    if md.is_volume() {
        lemma_slices_before_monotone(md.depth as int, mip as nat, md.mip_levels as nat);
        lemma_slices_before_monotone(md.depth as int, 0, mip as nat);
    } else {
        lemma_flat_index_bound(item, mip, md.array_size as int, md.mip_levels as int);
    }
}

proof fn lemma_index_injective(md: TexMetadata, m1: int, i1: int, s1: int, m2: int, i2: int, s2: int)
    requires
        md.valid(),
        md.valid_coord(m1, i1, s1),
        md.valid_coord(m2, i2, s2),
        md.index_of(m1, i1, s1) == md.index_of(m2, i2, s2),
    ensures
        m1 == m2 && i1 == i2 && s1 == s2,
{
    let mm = md.mip_levels as int;
    if md.is_volume() {
        if m1 < m2 {
            lemma_slices_before_monotone(md.depth as int, m1 as nat, m2 as nat);
        } else if m2 < m1 {
            lemma_slices_before_monotone(md.depth as int, m2 as nat, m1 as nat);
        }
    } else {
        if i1 < i2 {
            assert(i1 * mm + m1 < i2 * mm + m2) by (nonlinear_arith)
                requires i1 < i2, 0 <= m1 < mm, 0 <= m2;
        } else if i2 < i1 {
            assert(i2 * mm + m2 < i1 * mm + m1) by (nonlinear_arith)
                requires i2 < i1, 0 <= m2 < mm, 0 <= m1;
        }
    }
}

proof fn lemma_index_onto(md: TexMetadata, i: int) -> (c: (int, int, int))
    requires
        md.valid(),
        0 <= i < md.subresource_count(),
    ensures
        md.valid_coord(c.0, c.1, c.2),
        md.index_of(c.0, c.1, c.2) == i,
{
    if md.is_volume() {
        let m = lemma_find_level(md.depth as int, md.mip_levels as nat, i);
        (m as int, 0, i - slices_before(md.depth as int, m))
    } else {
        let mm = md.mip_levels as int;
        let item = i / mm;
        let mip = i % mm;
        assert(i == item * mm + mip && 0 <= mip < mm) by (nonlinear_arith)
            requires mm >= 1, item == i / mm, mip == i % mm;
        assert(item < md.array_size) by (nonlinear_arith)
            requires i < md.array_size * mm, i == item * mm + mip, 0 <= mip < mm, mm >= 1;
        assert(0 <= item) by (nonlinear_arith)
            requires i >= 0, mm >= 1, item == i / mm;
        (mip, item, 0)
    }
}

/// On a valid shape, `index_of` maps the valid coordinates one to one onto
/// `[0, subresource_count)`.
pub proof fn lemma_compute_index_bijective(md: TexMetadata)
    requires
        md.valid(),
    ensures
        forall|m: int, i: int, s: int| #[trigger] md.valid_coord(m, i, s)
            ==> 0 <= md.index_of(m, i, s) < md.subresource_count(),
        forall|m1: int, i1: int, s1: int, m2: int, i2: int, s2: int|
            md.valid_coord(m1, i1, s1) && md.valid_coord(m2, i2, s2)
            && #[trigger] md.index_of(m1, i1, s1) == #[trigger] md.index_of(m2, i2, s2)
            ==> m1 == m2 && i1 == i2 && s1 == s2,
        forall|k: int| 0 <= k < md.subresource_count() ==> #[trigger] md.index_reached(k),
{
    assert forall|m: int, i: int, s: int| #[trigger] md.valid_coord(m, i, s)
        implies 0 <= md.index_of(m, i, s) < md.subresource_count() by {
        lemma_index_in_range(md, m, i, s);
    }
    assert forall|m1: int, i1: int, s1: int, m2: int, i2: int, s2: int|
        md.valid_coord(m1, i1, s1) && md.valid_coord(m2, i2, s2)
        && #[trigger] md.index_of(m1, i1, s1) == #[trigger] md.index_of(m2, i2, s2)
        implies m1 == m2 && i1 == i2 && s1 == s2 by {
        lemma_index_injective(md, m1, i1, s1, m2, i2, s2);
    }
    assert forall|k: int| 0 <= k < md.subresource_count() implies #[trigger] md.index_reached(k) by {
        let c = lemma_index_onto(md, k);
        assert(md.valid_coord(c.0, c.1, c.2));
    }
}


/// Length of the full mip chain of a largest dimension `n`.
pub fn count_mips(n: usize) -> (r: usize)
    ensures
        r == full_mip_count(n as int),
{
    let mut c: usize = 1;
    let mut x = n;
    while x > 1
        invariant
            c >= 1,
            c - 1 + full_mip_count(x as int) == full_mip_count(n as int),
            x <= 1 || c + x <= n + 1,
        decreases x,
    {
        x = x / 2;
        c = c + 1;
    }
    c
}

} // verus!
