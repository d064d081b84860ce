//! Glyph/image atlas over a bucketed rectangle allocator.
//!
//! Tiles are packed into monochrome (1 byte per pixel) or polychrome (4
//! bytes per pixel) atlas textures, 1024 pixels square by default and 16384
//! at most. A tile is looked up by a caller-chosen key; uploads write the
//! tile's bytes row by row into the owning texture. Each texture counts its
//! live tiles; when the last one is removed the texture's slot returns to a
//! free list for reuse. A failed allocation yields no tile, never a crash:
//! the caller retries next frame.
//!
//! Rectangle placement is delegated to the `etagere` crate; the atlas trusts
//! only that a returned rectangle has the requested extent and lies inside
//! the texture.

use std::collections::HashMap;

use vstd::prelude::*;

use crate::bytes::alloc_zeroed;
use crate::shared_texture::{Bounds, DevicePixels, Point, Size};

verus! {

broadcast use vstd::std_specs::hash::group_hash_axioms;

/// Default edge of a fresh atlas texture, in pixels.
pub const DEFAULT_ATLAS_EDGE: i32 = 1024;

/// Largest atlas texture edge the backends allow, in pixels.
pub const MAX_ATLAS_EDGE: i32 = 16384;

#[verifier::external_type_specification]
#[verifier::external_body]
pub struct ExBucketedAtlasAllocator(etagere::BucketedAtlasAllocator);

/// The (width, height) a bucketed allocator was created with; allocations
/// never change it.
pub uninterp spec fn alloc_extent(allocator: etagere::BucketedAtlasAllocator) -> (int, int);

/// True of an allocator that has not yet granted any allocation.
pub uninterp spec fn alloc_fresh(allocator: etagere::BucketedAtlasAllocator) -> bool;

/// Relies on etagere::BucketedAtlasAllocator::new: an empty shelf-packing
/// allocator of the given extent. The extent is kept within the largest
/// atlas edge so that the allocator's own area arithmetic (accumulated in an
/// i32) can never overflow.
#[verifier::external_body]
fn atlas_allocator_new(width: i32, height: i32) -> (r: etagere::BucketedAtlasAllocator)
    requires
        1 <= width <= MAX_ATLAS_EDGE,
        1 <= height <= MAX_ATLAS_EDGE,
    ensures
        alloc_extent(r) == (width as int, height as int),
        alloc_fresh(r),
{
    etagere::BucketedAtlasAllocator::new(etagere::size2(width, height))
}

/// Relies on etagere::BucketedAtlasAllocator::allocate: a returned
/// allocation is a rectangle of at least the requested extent placed inside
/// the allocator's bounds, identified by a serializable id; an empty or
/// oversized request, or a full atlas, yields `None`. A fresh allocator
/// grants any request within its extent: it opens a shelf at least as tall
/// as the request whose first bucket spans at least the requested width. The
/// result carries (id, min x, min y).
#[verifier::external_body]
fn atlas_allocator_allocate(
    allocator: &mut etagere::BucketedAtlasAllocator,
    width: i32,
    height: i32,
) -> (r: Option<(u32, i32, i32)>)
    ensures
        alloc_extent(*final(allocator)) == alloc_extent(*old(allocator)),
        r matches Some(allocation) ==> {
            &&& 1 <= width
            &&& 1 <= height
            &&& 0 <= allocation.1
            &&& 0 <= allocation.2
            &&& allocation.1 + width <= alloc_extent(*old(allocator)).0
            &&& allocation.2 + height <= alloc_extent(*old(allocator)).1
        },
        alloc_fresh(*old(allocator)) && 1 <= width <= alloc_extent(*old(allocator)).0 && 1
            <= height <= alloc_extent(*old(allocator)).1 ==> r is Some,
{
    allocator.allocate(etagere::size2(width, height)).map(
        |allocation: etagere::Allocation|
            (allocation.id.serialize(), allocation.rectangle.min.x, allocation.rectangle.min.y),
    )
}

/// Whether an atlas texture holds 1-byte or 4-byte pixels.
#[derive(Clone, Copy, Debug, PartialEq, Eq, Hash, Structural)]
pub enum AtlasTextureKind {
    Monochrome,
    Polychrome,
}

/// Bytes one pixel occupies in a texture of the given kind.
pub open spec fn spec_kind_bytes_per_pixel(kind: AtlasTextureKind) -> u32 {
    match kind {
        AtlasTextureKind::Monochrome => 1,
        AtlasTextureKind::Polychrome => 4,
    }
}

/// Identity of one atlas texture: its slot index within its kind's list.
#[derive(Clone, Copy, Debug, PartialEq, Eq, Hash, Structural)]
pub struct AtlasTextureId {
    pub index: u32,
    pub kind: AtlasTextureKind,
}

/// Identity of one allocation within an atlas texture.
#[derive(Clone, Copy, Debug, PartialEq, Eq, Hash, Structural)]
pub struct TileId(pub u32);

/// Caller-chosen identity of a cached tile. Distinct contents must use
/// distinct ids; the kind picks the texture family.
#[derive(Clone, Copy, Debug, PartialEq, Eq, Hash, Structural)]
pub struct AtlasKey {
    pub id: u64,
    pub kind: AtlasTextureKind,
}

impl AtlasKey {
    /// The texture family this key's tiles are packed into.
    pub fn texture_kind(&self) -> (r: AtlasTextureKind)
        ensures
            r == self.kind,
    {
        self.kind
    }
}

/// A cached tile: which texture holds it and where.
#[derive(Clone, Copy, Debug, PartialEq, Eq, Structural)]
pub struct AtlasTile {
    pub texture_id: AtlasTextureId,
    pub tile_id: TileId,
    pub bounds: Bounds<DevicePixels>,
    pub padding: u32,
}

/// One atlas texture: its rectangle allocator, its texel bytes, and the
/// number of live tiles that reference it.
struct AtlasTexture {
    id: AtlasTextureId,
    bytes_per_pixel: u32,
    allocator: etagere::BucketedAtlasAllocator,
    size: Size<DevicePixels>,
    texels: Vec<u8>,
    live_atlas_keys: u32,
}

/// Byte offset of the start of `row` of a tile at `bounds` inside a texture
/// `tex_width` pixels wide with `bpp` bytes per pixel.
pub open spec fn spec_row_start(bounds: Bounds<DevicePixels>, tex_width: int, bpp: int, row: int) -> int {
    ((bounds.origin.y.0 + row) * tex_width + bounds.origin.x.0) * bpp
}

/// Row `row` of `bytes` (laid out with rows of `bounds.size.width * bpp`
/// bytes) sits at its place for `bounds` within `texels`.
pub open spec fn spec_row_copied(
    texels: Seq<u8>,
    tex_width: int,
    bpp: int,
    bounds: Bounds<DevicePixels>,
    bytes: Seq<u8>,
    row: int,
) -> bool {
    texels.subrange(
        spec_row_start(bounds, tex_width, bpp, row),
        spec_row_start(bounds, tex_width, bpp, row) + bounds.size.width.0 * bpp,
    ) == bytes.subrange(row * bounds.size.width.0 * bpp, (row + 1) * bounds.size.width.0 * bpp)
}

/// True iff byte offset `k` lies within one of the first `upto` rows of the
/// tile at `bounds`.
pub open spec fn spec_in_rows(
    bounds: Bounds<DevicePixels>,
    tex_width: int,
    bpp: int,
    upto: int,
    k: int,
) -> bool {
    exists|row: int|
        0 <= row < upto && #[trigger] spec_row_start(bounds, tex_width, bpp, row) <= k
            < spec_row_start(bounds, tex_width, bpp, row) + bounds.size.width.0 * bpp
}

/// True iff byte offset `k` lies within the tile at `bounds`.
pub open spec fn spec_in_tile(bounds: Bounds<DevicePixels>, tex_width: int, bpp: int, k: int) -> bool {
    spec_in_rows(bounds, tex_width, bpp, bounds.size.height.0 as int, k)
}

/// `post` and `pre` are equally long texel stores that agree everywhere
/// outside the tile at `bounds`.
pub open spec fn spec_outside_tile_unchanged(
    post: Seq<u8>,
    pre: Seq<u8>,
    bounds: Bounds<DevicePixels>,
    tex_width: int,
    bpp: int,
) -> bool {
    &&& post.len() == pre.len()
    &&& forall|k: int|
        0 <= k < pre.len() && !spec_in_tile(bounds, tex_width, bpp, k) ==> (#[trigger] post[k])
            == pre[k]
}

/// Every row of `bytes` sits at its place for `bounds` within `texels`.
pub open spec fn spec_region_copied(
    texels: Seq<u8>,
    tex_width: int,
    bpp: int,
    bounds: Bounds<DevicePixels>,
    bytes: Seq<u8>,
) -> bool {
    forall|row: int|
        0 <= row < bounds.size.height.0 ==> #[trigger] spec_row_copied(
            texels,
            tex_width,
            bpp,
            bounds,
            bytes,
            row,
        )
}

/// Two equal-length windows with pointwise equal bytes are equal
/// subranges.
proof fn lemma_subrange_eq(s1: Seq<u8>, s2: Seq<u8>, a1: int, a2: int, n: int)
    requires
        0 <= n,
        0 <= a1,
        a1 + n <= s1.len(),
        0 <= a2,
        a2 + n <= s2.len(),
        forall|k: int| 0 <= k < n ==> (#[trigger] s1[a1 + k]) == s2[a2 + k],
    ensures
        s1.subrange(a1, a1 + n) == s2.subrange(a2, a2 + n),
{
    assert forall|k: int| 0 <= k < n implies (#[trigger] s1.subrange(a1, a1 + n)[k]) == s2.subrange(
        a2,
        a2 + n,
    )[k] by {
        assert(s1[a1 + k] == s2[a2 + k]);
    }
    assert(s1.subrange(a1, a1 + n) =~= s2.subrange(a2, a2 + n));
}

impl AtlasTexture {
    /// The texel store matches the extent and the pixel kind, and the
    /// allocator was created for exactly this extent.
    spec fn wf(&self) -> bool {
        &&& self.bytes_per_pixel == spec_kind_bytes_per_pixel(self.id.kind)
        &&& 1 <= self.size.width.0 <= MAX_ATLAS_EDGE
        &&& 1 <= self.size.height.0 <= MAX_ATLAS_EDGE
        &&& self.texels@.len() == self.size.width.0 * self.size.height.0 * self.bytes_per_pixel
        &&& alloc_extent(self.allocator) == (self.size.width.0 as int, self.size.height.0 as int)
    }

    /// Reserve a `size` rectangle. A returned tile lies inside this texture
    /// and references it; the tile count grows by one. `None` (the request
    /// did not fit, was empty, or the tile counter is exhausted) leaves the
    /// texel bytes and the count unchanged.
    fn allocate(&mut self, size: Size<DevicePixels>) -> (r: Option<AtlasTile>)
        requires
            old(self).wf(),
        ensures
            final(self).wf(),
            final(self).id == old(self).id,
            final(self).bytes_per_pixel == old(self).bytes_per_pixel,
            final(self).size == old(self).size,
            final(self).texels == old(self).texels,
            r matches Some(tile) ==> {
                &&& tile.texture_id == old(self).id
                &&& tile.bounds.size == size
                &&& 0 <= tile.bounds.origin.x.0
                &&& 0 <= tile.bounds.origin.y.0
                &&& tile.bounds.origin.x.0 + size.width.0 <= old(self).size.width.0
                &&& tile.bounds.origin.y.0 + size.height.0 <= old(self).size.height.0
                &&& 1 <= size.width.0
                &&& 1 <= size.height.0
                &&& final(self).live_atlas_keys == old(self).live_atlas_keys + 1
            },
            r is None ==> final(self).live_atlas_keys == old(self).live_atlas_keys,
            alloc_fresh(old(self).allocator) && old(self).live_atlas_keys < u32::MAX && 1
                <= size.width.0 <= old(self).size.width.0 && 1 <= size.height.0 <= old(
                self,
            ).size.height.0 ==> r is Some,
    {
        if self.live_atlas_keys == u32::MAX {
            return None;
        }
        match atlas_allocator_allocate(&mut self.allocator, size.width.0, size.height.0) {
            Some((alloc_id, x, y)) => {
                self.live_atlas_keys = self.live_atlas_keys + 1;
                Some(
                    AtlasTile {
                        texture_id: self.id,
                        tile_id: TileId(alloc_id),
                        bounds: Bounds {
                            origin: Point { x: DevicePixels(x), y: DevicePixels(y) },
                            size,
                        },
                        padding: 0,
                    },
                )
            },
            None => None,
        }
    }

    /// Write `bytes` (rows of `bounds.size.width * bytes_per_pixel` bytes)
    /// into the rectangle `bounds` of this texture.
    fn upload(&mut self, bounds: Bounds<DevicePixels>, bytes: &Vec<u8>)
        requires
            old(self).wf(),
            0 <= bounds.origin.x.0,
            0 <= bounds.origin.y.0,
            0 <= bounds.size.width.0,
            0 <= bounds.size.height.0,
            bounds.origin.x.0 + bounds.size.width.0 <= old(self).size.width.0,
            bounds.origin.y.0 + bounds.size.height.0 <= old(self).size.height.0,
            bytes@.len() == bounds.size.width.0 * bounds.size.height.0 * old(
                self,
            ).bytes_per_pixel,
        ensures
            final(self).wf(),
            final(self).id == old(self).id,
            final(self).bytes_per_pixel == old(self).bytes_per_pixel,
            final(self).size == old(self).size,
            final(self).allocator == old(self).allocator,
            final(self).live_atlas_keys == old(self).live_atlas_keys,
            final(self).texels@.len() == old(self).texels@.len(),
            spec_region_copied(
                final(self).texels@,
                old(self).size.width.0 as int,
                old(self).bytes_per_pixel as int,
                bounds,
                bytes@,
            ),
            forall|k: int|
                0 <= k < old(self).texels@.len() && !spec_in_tile(
                    bounds,
                    old(self).size.width.0 as int,
                    old(self).bytes_per_pixel as int,
                    k,
                ) ==> (#[trigger] final(self).texels@[k]) == old(self).texels@[k],
    {
        let tex_width = self.size.width.0 as usize;
        let bpp = self.bytes_per_pixel as usize;
        let x = bounds.origin.x.0 as usize;
        let y = bounds.origin.y.0 as usize;
        let width = bounds.size.width.0 as usize;
        let height = bounds.size.height.0 as usize;
        let row_bytes = width * bpp;
        let bytes_len = bytes.len();
        let texels_len = self.texels.len();
        proof {
            lemma_rows_within(
                bounds,
                self.size.width.0 as int,
                self.size.height.0 as int,
                self.bytes_per_pixel as int,
            );
        }
        let mut row: usize = 0;
        while row < height
            invariant
                self.wf(),
                bytes_len == bytes@.len(),
                texels_len == self.texels@.len(),
                1 <= bpp,
                0 <= bounds.origin.x.0,
                0 <= bounds.origin.y.0,
                0 <= bounds.size.width.0,
                0 <= bounds.size.height.0,
                bounds.origin.x.0 + bounds.size.width.0 <= self.size.width.0,
                bounds.origin.y.0 + bounds.size.height.0 <= self.size.height.0,
                self.id == old(self).id,
                self.bytes_per_pixel == old(self).bytes_per_pixel,
                self.size == old(self).size,
                self.allocator == old(self).allocator,
                self.live_atlas_keys == old(self).live_atlas_keys,
                self.texels@.len() == old(self).texels@.len(),
                row <= height,
                tex_width == self.size.width.0,
                bpp == self.bytes_per_pixel,
                x == bounds.origin.x.0,
                y == bounds.origin.y.0,
                width == bounds.size.width.0,
                height == bounds.size.height.0,
                row_bytes == width * bpp,
                bytes@.len() == width * height * bpp,
                forall|r0: int|
                    0 <= r0 < height ==> 0 <= spec_row_start(
                        bounds,
                        tex_width as int,
                        bpp as int,
                        r0,
                    ) && #[trigger] spec_row_start(bounds, tex_width as int, bpp as int, r0)
                        + width * bpp <= self.texels@.len(),
                forall|r0: int|
                    0 <= r0 < row ==> #[trigger] spec_row_copied(
                        self.texels@,
                        tex_width as int,
                        bpp as int,
                        bounds,
                        bytes@,
                        r0,
                    ),
                forall|k: int|
                    0 <= k < old(self).texels@.len() && !spec_in_rows(
                        bounds,
                        tex_width as int,
                        bpp as int,
                        row as int,
                        k,
                    ) ==> (#[trigger] self.texels@[k]) == old(self).texels@[k],
            decreases height - row,
        {
            proof {
                assert(0 <= spec_row_start(bounds, tex_width as int, bpp as int, row as int)
                    && spec_row_start(bounds, tex_width as int, bpp as int, row as int) + width
                    * bpp <= self.texels@.len());
                assert((y + row) * tex_width <= (y + row) * tex_width + x <= ((y + row) * tex_width
                    + x) * bpp) by (nonlinear_arith)
                    requires
                        0 <= y as int,
                        0 <= row as int,
                        0 <= tex_width as int,
                        0 <= x as int,
                        1 <= bpp as int,
                ;
                assert(row * row_bytes + row_bytes <= bytes@.len()) by {
                    lemma_src_rows_within(width as int, height as int, bpp as int, row as int);
                }
            }
            let dst_start = ((y + row) * tex_width + x) * bpp;
            let src_start = row * row_bytes;
            proof {
                assert(dst_start == spec_row_start(bounds, tex_width as int, bpp as int, row as int));
            }
            let ghost texels_before = self.texels@;
            let mut j: usize = 0;
            while j < row_bytes
                invariant
                    j <= row_bytes,
                    bytes_len == bytes@.len(),
                    texels_len == self.texels@.len(),
                    self.texels@.len() == texels_before.len(),
                    dst_start + row_bytes <= self.texels@.len(),
                    src_start + row_bytes <= bytes@.len(),
                    forall|k: int|
                        0 <= k < j ==> #[trigger] self.texels@[dst_start + k] == bytes@[src_start
                            + k],
                    forall|k: int|
                        0 <= k < self.texels@.len() && !(dst_start <= k < dst_start + j)
                            ==> #[trigger] self.texels@[k] == texels_before[k],
                    self.id == old(self).id,
                    self.bytes_per_pixel == old(self).bytes_per_pixel,
                    self.size == old(self).size,
                    self.allocator == old(self).allocator,
                    self.live_atlas_keys == old(self).live_atlas_keys,
                decreases row_bytes - j,
            {
                let byte = bytes[src_start + j];
                self.texels.set(dst_start + j, byte);
                j += 1;
            }
            row += 1;
            proof {
                let width_bytes = bounds.size.width.0 * bpp as int;
                assert(src_start as int == (row - 1) * width_bytes && src_start + row_bytes == row
                    as int * width_bytes) by (nonlinear_arith)
                    requires
                        src_start == (row - 1) * row_bytes,
                        row_bytes == width * bpp,
                        width == bounds.size.width.0,
                        width_bytes == bounds.size.width.0 * bpp as int,
                        1 <= row,
                ;
                assert forall|r0: int| 0 <= r0 < row implies #[trigger] spec_row_copied(
                    self.texels@,
                    tex_width as int,
                    bpp as int,
                    bounds,
                    bytes@,
                    r0,
                ) by {
                    let start0 = spec_row_start(bounds, tex_width as int, bpp as int, r0);
                    if r0 == row - 1 {
                        assert(start0 == dst_start);
                        assert forall|k: int| 0 <= k < width_bytes implies (
                        #[trigger] self.texels@[start0 + k]) == bytes@[r0 * width_bytes + k] by {
                            assert(self.texels@[dst_start + k] == bytes@[src_start + k]);
                        }
                        lemma_subrange_eq(
                            self.texels@,
                            bytes@,
                            start0,
                            r0 * width_bytes,
                            width_bytes,
                        );
                        assert(r0 * bounds.size.width.0 * bpp == r0 * width_bytes && (r0 + 1)
                            * bounds.size.width.0 * bpp == (r0 + 1) * width_bytes && r0
                            * width_bytes + width_bytes == (r0 + 1) * width_bytes)
                            by (nonlinear_arith)
                            requires
                                width_bytes == bounds.size.width.0 * bpp as int,
                        ;
                    } else {
                        lemma_rows_disjoint(bounds, tex_width as int, bpp as int, r0, row - 1);
                        assert(spec_row_copied(
                            texels_before,
                            tex_width as int,
                            bpp as int,
                            bounds,
                            bytes@,
                            r0,
                        ));
                        assert forall|k: int| 0 <= k < width_bytes implies (
                        #[trigger] self.texels@[start0 + k]) == texels_before[start0 + k] by {
                            assert(!(dst_start <= start0 + k < dst_start + row_bytes));
                        }
                        lemma_subrange_eq(
                            self.texels@,
                            texels_before,
                            start0,
                            start0,
                            width_bytes,
                        );
                        assert(r0 * bounds.size.width.0 * bpp == r0 * width_bytes && (r0 + 1)
                            * bounds.size.width.0 * bpp == (r0 + 1) * width_bytes)
                            by (nonlinear_arith)
                            requires
                                width_bytes == bounds.size.width.0 * bpp as int,
                        ;
                    }
                }
            }
        }
    }

    /// One fewer live tile references this texture; at zero it stays zero.
    fn decrement_ref_count(&mut self)
        ensures
            *final(self) == (AtlasTexture {
                live_atlas_keys: if old(self).live_atlas_keys > 0 {
                    (old(self).live_atlas_keys - 1) as u32
                } else {
                    0
                },
                ..*old(self)
            }),
    {
        if self.live_atlas_keys > 0 {
            self.live_atlas_keys = self.live_atlas_keys - 1;
        }
    }

    /// True iff no live tile references this texture.
    fn is_unreferenced(&self) -> (r: bool)
        ensures
            r <==> self.live_atlas_keys == 0,
    {
        self.live_atlas_keys == 0
    }
}

/// Every row of a tile within the texture bounds lies within the texel
/// store.
proof fn lemma_rows_within(bounds: Bounds<DevicePixels>, tex_width: int, tex_height: int, bpp: int)
    requires
        0 <= bounds.origin.x.0,
        0 <= bounds.origin.y.0,
        0 <= bounds.size.width.0,
        0 <= bounds.size.height.0,
        bounds.origin.x.0 + bounds.size.width.0 <= tex_width,
        bounds.origin.y.0 + bounds.size.height.0 <= tex_height,
        0 < bpp,
        tex_width <= 65535,
    ensures
        forall|row: int|
            0 <= row < bounds.size.height.0 ==> 0 <= spec_row_start(bounds, tex_width, bpp, row)
                && #[trigger] spec_row_start(bounds, tex_width, bpp, row) + bounds.size.width.0
                * bpp <= tex_width * tex_height * bpp,
{
    assert forall|row: int| 0 <= row < bounds.size.height.0 implies 0 <= spec_row_start(
        bounds,
        tex_width,
        bpp,
        row,
    ) && #[trigger] spec_row_start(bounds, tex_width, bpp, row) + bounds.size.width.0 * bpp
        <= tex_width * tex_height * bpp by {
        let y = bounds.origin.y.0 as int;
        let x = bounds.origin.x.0 as int;
        let w = bounds.size.width.0 as int;
        assert(0 <= ((y + row) * tex_width + x) * bpp && ((y + row) * tex_width + x) * bpp + w
            * bpp <= tex_width * tex_height * bpp) by (nonlinear_arith)
            requires
                0 <= x,
                0 <= y,
                0 <= row,
                0 <= w,
                0 < bpp,
                x + w <= tex_width,
                y + row < tex_height,
                0 <= tex_width,
        ;
    }
}

/// Rows of the source byte buffer lie within it.
proof fn lemma_src_rows_within(width: int, height: int, bpp: int, row: int)
    requires
        0 <= width,
        0 < bpp,
        0 <= row < height,
    ensures
        row * (width * bpp) + width * bpp <= width * height * bpp,
        0 <= row * (width * bpp),
{
    assert(row * (width * bpp) + width * bpp <= width * height * bpp && 0 <= row * (width * bpp))
        by (nonlinear_arith)
        requires
            0 <= width,
            0 < bpp,
            0 <= row < height,
    ;
}

/// Distinct rows of one tile occupy disjoint texel ranges; in particular an
/// earlier row ends at or before a later row starts.
proof fn lemma_rows_disjoint(
    bounds: Bounds<DevicePixels>,
    tex_width: int,
    bpp: int,
    r1: int,
    r2: int,
)
    requires
        0 <= bounds.origin.x.0,
        0 <= bounds.size.width.0,
        bounds.origin.x.0 + bounds.size.width.0 <= tex_width,
        0 < bpp,
        r1 != r2,
        0 <= r1,
        0 <= r2,
    ensures
        r1 < r2 ==> spec_row_start(bounds, tex_width, bpp, r1) + bounds.size.width.0 * bpp
            <= spec_row_start(bounds, tex_width, bpp, r2),
        r2 < r1 ==> spec_row_start(bounds, tex_width, bpp, r2) + bounds.size.width.0 * bpp
            <= spec_row_start(bounds, tex_width, bpp, r1),
{
    let x = bounds.origin.x.0 as int;
    let y = bounds.origin.y.0 as int;
    let w = bounds.size.width.0 as int;
    assert((r1 < r2 ==> ((y + r1) * tex_width + x) * bpp + w * bpp <= ((y + r2) * tex_width + x)
        * bpp) && (r2 < r1 ==> ((y + r2) * tex_width + x) * bpp + w * bpp <= ((y + r1) * tex_width
        + x) * bpp)) by (nonlinear_arith)
        requires
            0 <= x,
            0 <= w,
            x + w <= tex_width,
            0 < bpp,
            r1 != r2,
    ;
}


/// The texture at `index` of a slot sequence.
spec fn tex_at(textures: Seq<Option<AtlasTexture>>, index: int) -> AtlasTexture {
    textures[index]->Some_0
}

/// True iff `index` names a live texture slot.
spec fn slot_live(textures: Seq<Option<AtlasTexture>>, index: int) -> bool {
    0 <= index < textures.len() && textures[index] is Some
}

/// The texture slots of one kind, plus the free slots kept for reuse.
struct AtlasTextureList {
    textures: Vec<Option<AtlasTexture>>,
    free_list: Vec<usize>,
}

/// Every live slot holds a well-formed texture that knows its own slot
/// index and kind.
spec fn slots_wf(textures: Seq<Option<AtlasTexture>>, kind: AtlasTextureKind) -> bool {
    forall|i: int|
        slot_live(textures, i) ==> (#[trigger] tex_at(textures, i)).wf() && tex_at(textures, i).id
            == (AtlasTextureId { index: i as u32, kind })
}

/// A change confined to slot `ix` that leaves it either empty or holding a
/// well-formed texture named after its slot keeps every slot well formed.
proof fn lemma_slots_wf_update(
    pre: Seq<Option<AtlasTexture>>,
    post: Seq<Option<AtlasTexture>>,
    ix: int,
    kind: AtlasTextureKind,
)
    requires
        slots_wf(pre, kind),
        post.len() == pre.len(),
        forall|i: int| 0 <= i < pre.len() && i != ix ==> #[trigger] post[i] == pre[i],
        0 <= ix < post.len(),
        post[ix] is Some ==> tex_at(post, ix).wf() && tex_at(post, ix).id == (AtlasTextureId {
            index: ix as u32,
            kind,
        }),
    ensures
        slots_wf(post, kind),
{
    assert forall|i: int| slot_live(post, i) implies (#[trigger] tex_at(post, i)).wf() && tex_at(
        post,
        i,
    ).id == (AtlasTextureId { index: i as u32, kind }) by {
        if i != ix {
            assert(post[i] == pre[i]);
            assert(slot_live(pre, i));
            assert(tex_at(pre, i).wf());
        }
    }
}

/// After a change confined to slot `ix` that leaves it holding a texture,
/// the free-list entries still name empty slots: none of them was `ix`,
/// since `ix` held a texture before the change too.
proof fn lemma_free_list_preserved(
    pre: Seq<Option<AtlasTexture>>,
    post: Seq<Option<AtlasTexture>>,
    free_list: Seq<usize>,
    ix: int,
)
    requires
        post.len() == pre.len(),
        forall|i: int| 0 <= i < pre.len() && i != ix ==> #[trigger] post[i] == pre[i],
        forall|f: int|
            0 <= f < free_list.len() ==> (#[trigger] free_list[f]) < pre.len()
                && pre[free_list[f] as int] is None,
        0 <= ix < pre.len(),
        pre[ix] is Some,
    ensures
        forall|f: int|
            0 <= f < free_list.len() ==> (#[trigger] free_list[f]) < post.len()
                && post[free_list[f] as int] is None,
{
    assert forall|f: int| 0 <= f < free_list.len() implies (#[trigger] free_list[f]) < post.len()
        && post[free_list[f] as int] is None by {
        assert(pre[free_list[f] as int] is None);
    }
}

impl AtlasTextureList {
    /// Every live slot holds a well-formed texture that knows its own slot
    /// index and kind; free-list entries are distinct indices of empty
    /// slots.
    spec fn wf(&self, kind: AtlasTextureKind) -> bool {
        &&& self.textures@.len() <= u32::MAX
        &&& slots_wf(self.textures@, kind)
        &&& forall|f: int|
            0 <= f < self.free_list@.len() ==> (#[trigger] self.free_list@[f])
                < self.textures@.len() && self.textures@[self.free_list@[f] as int] is None
        &&& forall|f1: int, f2: int|
            0 <= f1 < f2 < self.free_list@.len() ==> (#[trigger] self.free_list@[f1]) != (
            #[trigger] self.free_list@[f2])
    }

    fn new() -> (r: Self)
        ensures
            r.textures@.len() == 0,
            r.free_list@.len() == 0,
    {
        AtlasTextureList { textures: Vec::new(), free_list: Vec::new() }
    }

    /// Try to reserve `size` in an existing texture, newest slot first.
    /// The slots keep their identities, extents and texel bytes; on success
    /// the returned tile is a fresh rectangle inside its texture.
    fn allocate_existing(&mut self, size: Size<DevicePixels>, kind: AtlasTextureKind) -> (r:
        Option<AtlasTile>)
        requires
            old(self).wf(kind),
        ensures
            final(self).wf(kind),
            final(self).textures@.len() == old(self).textures@.len(),
            final(self).free_list == old(self).free_list,
            forall|i: int|
                0 <= i < old(self).textures@.len()
                    ==> (#[trigger] final(self).textures@[i]) is Some == old(
                    self,
                ).textures@[i] is Some,
            forall|i: int|
                slot_live(old(self).textures@, i) ==> (#[trigger] tex_at(
                    final(self).textures@,
                    i,
                )).texels == tex_at(old(self).textures@, i).texels && tex_at(
                    final(self).textures@,
                    i,
                ).size == tex_at(old(self).textures@, i).size,
            r matches Some(tile) ==> spec_tile_fits(final(self).textures@, tile, size, kind),
    {
        let total = self.textures.len();
        let mut remaining = total;
        while remaining > 0
            invariant
                self.wf(kind),
                remaining <= total,
                total == self.textures@.len(),
                total == old(self).textures@.len(),
                self.free_list == old(self).free_list,
                forall|i: int|
                    0 <= i < old(self).textures@.len() ==> (#[trigger] self.textures@[i]) is Some
                        == old(self).textures@[i] is Some,
                forall|i: int|
                    slot_live(old(self).textures@, i) ==> (#[trigger] tex_at(
                        self.textures@,
                        i,
                    )).texels == tex_at(old(self).textures@, i).texels && tex_at(
                        self.textures@,
                        i,
                    ).size == tex_at(old(self).textures@, i).size,
            decreases remaining,
        {
            let index = remaining - 1;
            let ghost pre = self.textures@;
            proof {
                if self.textures@[index as int] is Some {
                    assert(tex_at(self.textures@, index as int).wf());
                }
            }
            let slot = self.textures[index].take();
            match slot {
                Some(mut texture) => {
                    let tile = texture.allocate(size);
                    self.textures.set(index, Some(texture));
                    proof {
                        lemma_slots_wf_update(pre, self.textures@, index as int, kind);
                        lemma_free_list_preserved(
                            pre,
                            self.textures@,
                            self.free_list@,
                            index as int,
                        );
                        assert forall|i: int| 0 <= i < old(self).textures@.len() implies (
                        #[trigger] self.textures@[i]) is Some == old(
                            self,
                        ).textures@[i] is Some by {
                            if i != index {
                                assert(self.textures@[i] == pre[i]);
                            }
                        }
                        assert forall|i: int| slot_live(old(self).textures@, i) implies (
                        #[trigger] tex_at(self.textures@, i)).texels == tex_at(
                            old(self).textures@,
                            i,
                        ).texels && tex_at(self.textures@, i).size == tex_at(
                            old(self).textures@,
                            i,
                        ).size by {
                            if i != index {
                                assert(self.textures@[i] == pre[i]);
                            } else {
                                assert(slot_live(pre, i));
                                assert(tex_at(pre, i).texels == tex_at(
                                    old(self).textures@,
                                    i,
                                ).texels);
                            }
                        }
                    }
                    if let Some(tile) = tile {
                        return Some(tile);
                    }
                },
                None => {
                    proof {
                        assert forall|i: int| 0 <= i < pre.len() implies #[trigger] self.textures@[i]
                            == pre[i] by {
                            if i == index {
                                assert(pre[i] is None);
                                assert(self.textures@[i] is None);
                            }
                        }
                        assert(self.textures@ =~= pre);
                    }
                },
            }
            remaining = index;
        }
        None
    }

    /// Install a fresh texture of the clamped extent, reusing a free slot if
    /// one exists; returns the slot index. Existing slots are untouched.
    fn push_texture(&mut self, width: i32, height: i32, kind: AtlasTextureKind) -> (ix: usize)
        requires
            old(self).wf(kind),
            1 <= width <= MAX_ATLAS_EDGE,
            1 <= height <= MAX_ATLAS_EDGE,
            old(self).textures@.len() < u32::MAX,
        ensures
            final(self).wf(kind),
            ix < final(self).textures@.len(),
            final(self).textures@.len() >= old(self).textures@.len(),
            final(self).textures@.len() <= old(self).textures@.len() + 1,
            slot_live(final(self).textures@, ix as int),
            (AtlasTexture {
                id: AtlasTextureId { index: ix as u32, kind },
                bytes_per_pixel: spec_kind_bytes_per_pixel(kind),
                allocator: tex_at(final(self).textures@, ix as int).allocator,
                size: Size { width: DevicePixels(width), height: DevicePixels(height) },
                texels: tex_at(final(self).textures@, ix as int).texels,
                live_atlas_keys: 0,
            }) == tex_at(final(self).textures@, ix as int),
            tex_at(final(self).textures@, ix as int).texels@ == Seq::new(
                (width * height * spec_kind_bytes_per_pixel(kind)) as nat,
                |i: int| 0u8,
            ),
            alloc_fresh(tex_at(final(self).textures@, ix as int).allocator),
            forall|i: int|
                0 <= i < old(self).textures@.len() && i != ix
                    ==> (#[trigger] final(self).textures@[i]) == old(self).textures@[i],
            !slot_live(old(self).textures@, ix as int),
    {
        let bytes_per_pixel: u32 = match kind {
            AtlasTextureKind::Monochrome => 1,
            AtlasTextureKind::Polychrome => 4,
        };
        proof {
            assert(width * height <= width * height * bytes_per_pixel <= 16384 * 16384 * 4)
                by (nonlinear_arith)
                requires
                    1 <= width <= 16384,
                    1 <= height <= 16384,
                    1 <= bytes_per_pixel <= 4,
            ;
        }
        let total = (width as usize) * (height as usize) * (bytes_per_pixel as usize);
        let texels = alloc_zeroed(total);
        proof {
            assert(texels@ =~= Seq::new(
                (width * height * spec_kind_bytes_per_pixel(kind)) as nat,
                |i: int| 0u8,
            ));
        }
        let allocator = atlas_allocator_new(width, height);
        let ghost pre = self.textures@;
        let ghost pre_free = self.free_list@;
        let index = self.free_list.pop();
        match index {
            Some(ix) => {
                let texture = AtlasTexture {
                    id: AtlasTextureId { index: ix as u32, kind },
                    bytes_per_pixel,
                    allocator,
                    size: Size { width: DevicePixels(width), height: DevicePixels(height) },
                    texels,
                    live_atlas_keys: 0,
                };
                proof {
                    assert(pre[ix as int] is None);
                }
                self.textures.set(ix, Some(texture));
                proof {
                    lemma_slots_wf_update(pre, self.textures@, ix as int, kind);
                    assert forall|f: int| 0 <= f < self.free_list@.len() implies (
                    #[trigger] self.free_list@[f]) < self.textures@.len()
                        && self.textures@[self.free_list@[f] as int] is None by {
                        assert(self.free_list@[f] == pre_free[f]);
                        assert(pre_free[f] != pre_free[pre_free.len() - 1]);
                        assert(pre[self.free_list@[f] as int] is None);
                    }
                }
                ix
            },
            None => {
                let ix = self.textures.len();
                let texture = AtlasTexture {
                    id: AtlasTextureId { index: ix as u32, kind },
                    bytes_per_pixel,
                    allocator,
                    size: Size { width: DevicePixels(width), height: DevicePixels(height) },
                    texels,
                    live_atlas_keys: 0,
                };
                self.textures.push(Some(texture));
                proof {
                    assert forall|i: int| slot_live(self.textures@, i) implies (#[trigger] tex_at(
                        self.textures@,
                        i,
                    )).wf() && tex_at(self.textures@, i).id == (AtlasTextureId {
                        index: i as u32,
                        kind,
                    }) by {
                        if i < pre.len() {
                            assert(self.textures@[i] == pre[i]);
                            assert(slot_live(pre, i));
                            assert(tex_at(pre, i).wf());
                        }
                    }
                    assert forall|f: int| 0 <= f < self.free_list@.len() implies (
                    #[trigger] self.free_list@[f]) < self.textures@.len()
                        && self.textures@[self.free_list@[f] as int] is None by {
                        assert(pre[self.free_list@[f] as int] is None);
                        assert(self.textures@[self.free_list@[f] as int] == pre[self.free_list@[f] as int]);
                    }
                }
                ix
            },
        }
    }

    /// Reserve `size` in the texture at slot `ix`.
    fn allocate_at(&mut self, ix: usize, size: Size<DevicePixels>, kind: AtlasTextureKind) -> (r:
        Option<AtlasTile>)
        requires
            old(self).wf(kind),
            slot_live(old(self).textures@, ix as int),
        ensures
            final(self).wf(kind),
            final(self).textures@.len() == old(self).textures@.len(),
            final(self).free_list == old(self).free_list,
            forall|i: int|
                0 <= i < old(self).textures@.len() && i != ix
                    ==> (#[trigger] final(self).textures@[i]) == old(self).textures@[i],
            slot_live(final(self).textures@, ix as int),
            tex_at(final(self).textures@, ix as int).texels == tex_at(
                old(self).textures@,
                ix as int,
            ).texels,
            tex_at(final(self).textures@, ix as int).size == tex_at(
                old(self).textures@,
                ix as int,
            ).size,
            r matches Some(tile) ==> spec_tile_fits(final(self).textures@, tile, size, kind)
                && tile.texture_id.index == ix,
            alloc_fresh(tex_at(old(self).textures@, ix as int).allocator) && tex_at(
                old(self).textures@,
                ix as int,
            ).live_atlas_keys < u32::MAX && 1 <= size.width.0 <= tex_at(
                old(self).textures@,
                ix as int,
            ).size.width.0 && 1 <= size.height.0 <= tex_at(
                old(self).textures@,
                ix as int,
            ).size.height.0 ==> r is Some,
    {
        let ghost pre = self.textures@;
        proof {
            assert(tex_at(self.textures@, ix as int).wf());
        }
        let slot = self.textures[ix].take();
        match slot {
            Some(mut texture) => {
                let tile = texture.allocate(size);
                self.textures.set(ix, Some(texture));
                proof {
                    lemma_slots_wf_update(pre, self.textures@, ix as int, kind);
                    lemma_free_list_preserved(pre, self.textures@, self.free_list@, ix as int);
                }
                tile
            },
            None => {
                proof {
                    assert(false);
                }
                None
            },
        }
    }

    /// Write `bytes` into the rectangle `bounds` of the texture at `ix`.
    fn upload_at(
        &mut self,
        ix: usize,
        bounds: Bounds<DevicePixels>,
        bytes: &Vec<u8>,
        kind: AtlasTextureKind,
    )
        requires
            old(self).wf(kind),
            slot_live(old(self).textures@, ix as int),
            0 <= bounds.origin.x.0,
            0 <= bounds.origin.y.0,
            0 <= bounds.size.width.0,
            0 <= bounds.size.height.0,
            bounds.origin.x.0 + bounds.size.width.0 <= tex_at(
                old(self).textures@,
                ix as int,
            ).size.width.0,
            bounds.origin.y.0 + bounds.size.height.0 <= tex_at(
                old(self).textures@,
                ix as int,
            ).size.height.0,
            bytes@.len() == bounds.size.width.0 * bounds.size.height.0
                * spec_kind_bytes_per_pixel(kind),
        ensures
            final(self).wf(kind),
            final(self).textures@.len() == old(self).textures@.len(),
            final(self).free_list == old(self).free_list,
            forall|i: int|
                0 <= i < old(self).textures@.len() && i != ix
                    ==> (#[trigger] final(self).textures@[i]) == old(self).textures@[i],
            slot_live(final(self).textures@, ix as int),
            tex_at(final(self).textures@, ix as int).size == tex_at(
                old(self).textures@,
                ix as int,
            ).size,
            tex_at(final(self).textures@, ix as int).live_atlas_keys == tex_at(
                old(self).textures@,
                ix as int,
            ).live_atlas_keys,
            spec_region_copied(
                tex_at(final(self).textures@, ix as int).texels@,
                tex_at(old(self).textures@, ix as int).size.width.0 as int,
                spec_kind_bytes_per_pixel(kind) as int,
                bounds,
                bytes@,
            ),
            spec_outside_tile_unchanged(
                tex_at(final(self).textures@, ix as int).texels@,
                tex_at(old(self).textures@, ix as int).texels@,
                bounds,
                tex_at(old(self).textures@, ix as int).size.width.0 as int,
                spec_kind_bytes_per_pixel(kind) as int,
            ),
    {
        let ghost pre = self.textures@;
        proof {
            assert(tex_at(self.textures@, ix as int).wf());
        }
        let slot = self.textures[ix].take();
        match slot {
            Some(mut texture) => {
                texture.upload(bounds, bytes);
                self.textures.set(ix, Some(texture));
                proof {
                    lemma_slots_wf_update(pre, self.textures@, ix as int, kind);
                    lemma_free_list_preserved(pre, self.textures@, self.free_list@, ix as int);
                }
            },
            None => {
                proof {
                    assert(false);
                }
            },
        }
    }
}

/// `tile` names a live texture of `kind` and a rectangle of extent `size`
/// lying inside that texture.
spec fn spec_tile_fits(
    textures: Seq<Option<AtlasTexture>>,
    tile: AtlasTile,
    size: Size<DevicePixels>,
    kind: AtlasTextureKind,
) -> bool {
    &&& tile.texture_id.kind == kind
    &&& slot_live(textures, tile.texture_id.index as int)
    &&& tile.bounds.size == size
    &&& 0 <= tile.bounds.origin.x.0
    &&& 0 <= tile.bounds.origin.y.0
    &&& tile.bounds.origin.x.0 + size.width.0 <= tex_at(
        textures,
        tile.texture_id.index as int,
    ).size.width.0
    &&& tile.bounds.origin.y.0 + size.height.0 <= tex_at(
        textures,
        tile.texture_id.index as int,
    ).size.height.0
    &&& 1 <= size.width.0
    &&& 1 <= size.height.0
}


impl AtlasTextureList {
    /// Reserve `size`, first in an existing texture, else in a fresh one of
    /// the clamped default/maximum extent. `None` when nothing fits.
    fn allocate(&mut self, size: Size<DevicePixels>, kind: AtlasTextureKind) -> (r: Option<
        AtlasTile,
    >)
        requires
            old(self).wf(kind),
        ensures
            final(self).wf(kind),
            r matches Some(tile) ==> spec_tile_fits(final(self).textures@, tile, size, kind),
            forall|i: int|
                slot_live(old(self).textures@, i) ==> slot_live(final(self).textures@, i) && (
                #[trigger] tex_at(final(self).textures@, i)).texels == tex_at(
                    old(self).textures@,
                    i,
                ).texels && tex_at(final(self).textures@, i).size == tex_at(
                    old(self).textures@,
                    i,
                ).size,
            1 <= size.width.0 <= MAX_ATLAS_EDGE && 1 <= size.height.0 <= MAX_ATLAS_EDGE && old(
                self,
            ).textures@.len() < u32::MAX - 1 ==> r is Some,
            final(self).textures@.len() <= old(self).textures@.len() + 1,
    {
        let existing = self.allocate_existing(size, kind);
        if let Some(tile) = existing {
            return Some(tile);
        }
        if self.textures.len() >= (u32::MAX - 1) as usize {
            return None;
        }
        let ghost mid = self.textures@;
        let width = clamp_atlas_edge(size.width.0);
        let height = clamp_atlas_edge(size.height.0);
        let ix = self.push_texture(width, height, kind);
        let ghost grown = self.textures@;
        let tile = self.allocate_at(ix, size, kind);
        proof {
            assert forall|i: int| slot_live(old(self).textures@, i) implies slot_live(
                self.textures@,
                i,
            ) && (#[trigger] tex_at(self.textures@, i)).texels == tex_at(
                old(self).textures@,
                i,
            ).texels && tex_at(self.textures@, i).size == tex_at(
                old(self).textures@,
                i,
            ).size by {
                assert(slot_live(mid, i));
                assert(i != ix);
                assert(grown[i] == mid[i]);
                assert(self.textures@[i] == grown[i]);
                assert(tex_at(self.textures@, i) == tex_at(mid, i));
                assert(tex_at(mid, i).texels == tex_at(old(self).textures@, i).texels);
                assert(tex_at(mid, i).size == tex_at(old(self).textures@, i).size);
            }
        }
        tile
    }

    /// Drop one tile reference of the texture at slot `ix`; when the last
    /// reference goes, the slot is emptied and returned to the free list.
    fn remove_tile_reference(&mut self, ix: usize, kind: AtlasTextureKind)
        requires
            old(self).wf(kind),
        ensures
            final(self).wf(kind),
            final(self).textures@.len() == old(self).textures@.len(),
            forall|i: int|
                0 <= i < old(self).textures@.len() && i != ix
                    ==> (#[trigger] final(self).textures@[i]) == old(self).textures@[i],
            !slot_live(old(self).textures@, ix as int) ==> forall|i: int|
                0 <= i < old(self).textures@.len() ==> (#[trigger] final(self).textures@[i]) == old(
                    self,
                ).textures@[i],
            slot_live(old(self).textures@, ix as int) && tex_at(
                old(self).textures@,
                ix as int,
            ).live_atlas_keys <= 1 ==> !slot_live(final(self).textures@, ix as int),
            slot_live(old(self).textures@, ix as int) && tex_at(
                old(self).textures@,
                ix as int,
            ).live_atlas_keys > 1 ==> slot_live(final(self).textures@, ix as int) && tex_at(
                final(self).textures@,
                ix as int,
            ).live_atlas_keys == tex_at(old(self).textures@, ix as int).live_atlas_keys - 1
                && tex_at(final(self).textures@, ix as int).texels == tex_at(
                old(self).textures@,
                ix as int,
            ).texels && tex_at(final(self).textures@, ix as int).size == tex_at(
                old(self).textures@,
                ix as int,
            ).size,
    {
        if ix >= self.textures.len() {
            return ;
        }
        let ghost pre = self.textures@;
        proof {
            if self.textures@[ix as int] is Some {
                assert(tex_at(self.textures@, ix as int).wf());
            }
        }
        let slot = self.textures[ix].take();
        match slot {
            Some(mut texture) => {
                texture.decrement_ref_count();
                if texture.is_unreferenced() {
                    proof {
                        assert forall|f: int| 0 <= f < self.free_list@.len() implies (
                        #[trigger] self.free_list@[f]) != ix by {
                            assert(pre[self.free_list@[f] as int] is None);
                        }
                    }
                    self.free_list.push(ix);
                    proof {
                        lemma_slots_wf_update(pre, self.textures@, ix as int, kind);
                        assert forall|f: int| 0 <= f < self.free_list@.len() implies (
                        #[trigger] self.free_list@[f]) < self.textures@.len()
                            && self.textures@[self.free_list@[f] as int] is None by {
                            if f < self.free_list@.len() - 1 {
                                assert(pre[self.free_list@[f] as int] is None);
                            } else {
                                assert(self.free_list@[f] == ix);
                                assert(self.textures@[ix as int] is None);
                            }
                        }
                    }
                } else {
                    self.textures.set(ix, Some(texture));
                    proof {
                        lemma_slots_wf_update(pre, self.textures@, ix as int, kind);
                        lemma_free_list_preserved(pre, self.textures@, self.free_list@, ix as int);
                    }
                }
            },
            None => {
                proof {
                    assert forall|i: int| 0 <= i < pre.len() implies #[trigger] self.textures@[i]
                        == pre[i] by {
                        if i == ix {
                            assert(pre[i] is None);
                        }
                    }
                    assert(self.textures@ =~= pre);
                }
            },
        }
    }
}

/// Clamp a requested atlas edge between the default and the maximum.
fn clamp_atlas_edge(requested: i32) -> (r: i32)
    ensures
        r == (if requested > MAX_ATLAS_EDGE {
            MAX_ATLAS_EDGE
        } else if requested < DEFAULT_ATLAS_EDGE {
            DEFAULT_ATLAS_EDGE
        } else {
            requested
        }),
        DEFAULT_ATLAS_EDGE <= r <= MAX_ATLAS_EDGE,
{
    if requested > MAX_ATLAS_EDGE {
        MAX_ATLAS_EDGE
    } else if requested < DEFAULT_ATLAS_EDGE {
        DEFAULT_ATLAS_EDGE
    } else {
        requested
    }
}

/// The glyph/image atlas of one backend: bucketed monochrome and polychrome
/// texture lists and a tile cache keyed by caller-chosen identity.
pub struct Atlas {
    monochrome_textures: AtlasTextureList,
    polychrome_textures: AtlasTextureList,
    tiles_by_key: HashMap<u64, AtlasTile>,
}

/// Every atlas texture other than `keep` that `pre` held is still held by
/// `post`, with its texel bytes untouched.
pub open spec fn spec_other_textures_unchanged(post: Atlas, pre: Atlas, keep: AtlasTextureId) -> bool {
    forall|other: AtlasTextureId|
        other != keep && pre.spec_has_texture(other) ==> (#[trigger] post.spec_has_texture(other))
            && post.spec_texture_texels(other) == pre.spec_texture_texels(other)
}

impl Atlas {
    /// The cached tiles, keyed by the id part of their atlas key.
    pub closed spec fn spec_tiles(&self) -> Map<u64, AtlasTile> {
        self.tiles_by_key@
    }

    /// The texture slots of one kind.
    closed spec fn spec_list(&self, kind: AtlasTextureKind) -> Seq<Option<AtlasTexture>> {
        match kind {
            AtlasTextureKind::Monochrome => self.monochrome_textures.textures@,
            AtlasTextureKind::Polychrome => self.polychrome_textures.textures@,
        }
    }

    /// How many texture slots (live or free) the list of one kind holds.
    pub closed spec fn spec_texture_slots(&self, kind: AtlasTextureKind) -> nat {
        self.spec_list(kind).len()
    }

    /// True iff `id` names a live atlas texture.
    pub closed spec fn spec_has_texture(&self, id: AtlasTextureId) -> bool {
        slot_live(self.spec_list(id.kind), id.index as int)
    }

    /// The extent of texture `id`.
    pub closed spec fn spec_texture_size(&self, id: AtlasTextureId) -> Size<DevicePixels> {
        tex_at(self.spec_list(id.kind), id.index as int).size
    }

    /// The texel bytes of texture `id`.
    pub closed spec fn spec_texture_texels(&self, id: AtlasTextureId) -> Seq<u8> {
        tex_at(self.spec_list(id.kind), id.index as int).texels@
    }

    /// How many live tiles reference texture `id`.
    pub closed spec fn spec_texture_live_tiles(&self, id: AtlasTextureId) -> nat {
        tex_at(self.spec_list(id.kind), id.index as int).live_atlas_keys as nat
    }

    /// Well-formedness of both texture lists.
    pub closed spec fn wf(&self) -> bool {
        &&& self.monochrome_textures.wf(AtlasTextureKind::Monochrome)
        &&& self.polychrome_textures.wf(AtlasTextureKind::Polychrome)
    }

    /// An empty atlas.
    pub fn new() -> (r: Self)
        ensures
            r.wf(),
            r.spec_tiles() == Map::<u64, AtlasTile>::empty(),
            forall|id: AtlasTextureId| !r.spec_has_texture(id),
            forall|kind: AtlasTextureKind| #[trigger] r.spec_texture_slots(kind) == 0,
    {
        Atlas {
            monochrome_textures: AtlasTextureList::new(),
            polychrome_textures: AtlasTextureList::new(),
            tiles_by_key: HashMap::new(),
        }
    }

    /// Look up the tile cached under `key`, or pack `bytes` (rows of
    /// `size.width` pixels in the kind's format) into a fresh tile and cache
    /// it. `None` means the allocation failed; the caller retries next
    /// frame, and nothing was cached.
    pub fn get_or_insert_with_bytes(
        &mut self,
        key: AtlasKey,
        size: Size<DevicePixels>,
        bytes: &Vec<u8>,
    ) -> (r: Option<AtlasTile>)
        requires
            old(self).wf(),
            0 <= size.width.0,
            0 <= size.height.0,
            bytes@.len() == size.width.0 * size.height.0 * spec_kind_bytes_per_pixel(key.kind),
        ensures
            final(self).wf(),
            old(self).spec_tiles().contains_key(key.id) ==> r == Some(
                old(self).spec_tiles()[key.id],
            ) && *final(self) == *old(self),
            !old(self).spec_tiles().contains_key(key.id) && r is None
                ==> final(self).spec_tiles() == old(self).spec_tiles(),
            !old(self).spec_tiles().contains_key(key.id) && 1 <= size.width.0 <= MAX_ATLAS_EDGE
                && 1 <= size.height.0 <= MAX_ATLAS_EDGE && old(self).spec_texture_slots(key.kind)
                < u32::MAX - 1 ==> r is Some,
            forall|kind: AtlasTextureKind| #[trigger] final(self).spec_texture_slots(kind) <= old(
                self,
            ).spec_texture_slots(kind) + 1,
            !old(self).spec_tiles().contains_key(key.id) ==> (r matches Some(tile) ==> {
                &&& final(self).spec_tiles() == old(self).spec_tiles().insert(key.id, tile)
                &&& tile.texture_id.kind == key.kind
                &&& tile.bounds.size == size
                &&& final(self).spec_has_texture(tile.texture_id)
                &&& 0 <= tile.bounds.origin.x.0
                &&& 0 <= tile.bounds.origin.y.0
                &&& tile.bounds.origin.x.0 + size.width.0 <= final(self).spec_texture_size(
                    tile.texture_id,
                ).width.0
                &&& tile.bounds.origin.y.0 + size.height.0 <= final(self).spec_texture_size(
                    tile.texture_id,
                ).height.0
                &&& spec_region_copied(
                    final(self).spec_texture_texels(tile.texture_id),
                    final(self).spec_texture_size(tile.texture_id).width.0 as int,
                    spec_kind_bytes_per_pixel(key.kind) as int,
                    tile.bounds,
                    bytes@,
                )
            }),
            !old(self).spec_tiles().contains_key(key.id) ==> (r matches Some(tile)
                ==> spec_other_textures_unchanged(*final(self), *old(self), tile.texture_id)),
            !old(self).spec_tiles().contains_key(key.id) ==> (r matches Some(tile) ==> (old(
                self,
            ).spec_has_texture(tile.texture_id) ==> spec_outside_tile_unchanged(
                final(self).spec_texture_texels(tile.texture_id),
                old(self).spec_texture_texels(tile.texture_id),
                tile.bounds,
                old(self).spec_texture_size(tile.texture_id).width.0 as int,
                spec_kind_bytes_per_pixel(key.kind) as int,
            ))),
    {
        match self.tiles_by_key.get(&key.id) {
            Some(tile) => {
                return Some(*tile);
            },
            None => {
            },
        }
        let tile = match kind_allocate(self, size, key.kind) {
            Some(tile) => tile,
            None => {
                return None;
            },
        };
        let ghost allocated = *self;
        let index = tile.texture_id.index as usize;
        match key.kind {
            AtlasTextureKind::Monochrome => {
                self.monochrome_textures.upload_at(index, tile.bounds, bytes, key.kind);
            },
            AtlasTextureKind::Polychrome => {
                self.polychrome_textures.upload_at(index, tile.bounds, bytes, key.kind);
            },
        }
        self.tiles_by_key.insert(key.id, tile);
        proof {
            assert forall|other: AtlasTextureId|
                other != tile.texture_id && old(self).spec_has_texture(other) implies (
            #[trigger] self.spec_has_texture(other)) && self.spec_texture_texels(other) == old(
                self,
            ).spec_texture_texels(other) by {
                assert(allocated.spec_has_texture(other));
                assert(allocated.spec_texture_texels(other) == old(self).spec_texture_texels(
                    other,
                ));
                if other.kind == key.kind {
                    assert(other.index != tile.texture_id.index);
                    assert(self.spec_list(other.kind)[other.index as int] == allocated.spec_list(
                        other.kind,
                    )[other.index as int]);
                }
            }
            assert(spec_other_textures_unchanged(*self, *old(self), tile.texture_id));
            assert forall|kind2: AtlasTextureKind| #[trigger] self.spec_texture_slots(kind2)
                <= old(self).spec_texture_slots(kind2) + 1 by {
                assert(allocated.spec_texture_slots(kind2) <= old(self).spec_texture_slots(kind2)
                    + 1);
                assert(self.spec_list(kind2).len() == allocated.spec_list(kind2).len());
            }
            if old(self).spec_has_texture(tile.texture_id) {
                assert(allocated.spec_has_texture(tile.texture_id));
                assert(allocated.spec_texture_texels(tile.texture_id) == old(
                    self,
                ).spec_texture_texels(tile.texture_id));
                assert(allocated.spec_texture_size(tile.texture_id) == old(
                    self,
                ).spec_texture_size(tile.texture_id));
            }
        }
        Some(tile)
    }

    /// Drop the tile cached under `key`. The owning texture loses one tile
    /// reference; when the last one goes, its slot returns to the free list.
    pub fn remove(&mut self, key: &AtlasKey)
        requires
            old(self).wf(),
        ensures
            final(self).wf(),
            final(self).spec_tiles() == old(self).spec_tiles().remove(key.id),
            old(self).spec_tiles().contains_key(key.id) ==> ({
                let tile = old(self).spec_tiles()[key.id];
                &&& (old(self).spec_has_texture(tile.texture_id) && old(
                    self,
                ).spec_texture_live_tiles(tile.texture_id) <= 1 ==> !final(self).spec_has_texture(
                    tile.texture_id,
                ))
                &&& (old(self).spec_has_texture(tile.texture_id) && old(
                    self,
                ).spec_texture_live_tiles(tile.texture_id) > 1 ==> final(self).spec_has_texture(
                    tile.texture_id,
                ) && final(self).spec_texture_live_tiles(tile.texture_id) == old(
                    self,
                ).spec_texture_live_tiles(tile.texture_id) - 1 && final(self).spec_texture_texels(
                    tile.texture_id,
                ) == old(self).spec_texture_texels(tile.texture_id))
            }),
            !old(self).spec_tiles().contains_key(key.id) ==> *final(self) == *old(self),
    {
        match self.tiles_by_key.get(&key.id) {
            Some(_) => {
            },
            None => {
                proof {
                    assert(self.tiles_by_key@ =~= self.tiles_by_key@.remove(key.id));
                }
                return ;
            },
        }
        let tile = match self.tiles_by_key.remove(&key.id) {
            Some(tile) => tile,
            None => {
                proof {
                    assert(false);
                }
                return ;
            },
        };
        let index = tile.texture_id.index as usize;
        match tile.texture_id.kind {
            AtlasTextureKind::Monochrome => {
                self.monochrome_textures.remove_tile_reference(
                    index,
                    AtlasTextureKind::Monochrome,
                );
            },
            AtlasTextureKind::Polychrome => {
                self.polychrome_textures.remove_tile_reference(
                    index,
                    AtlasTextureKind::Polychrome,
                );
            },
        }
    }

    /// The texel bytes of texture `id`, as a compositor sampling the atlas
    /// would read them; `None` for an unknown or freed texture.
    pub fn texture_bytes(&self, id: AtlasTextureId) -> (r: Option<Vec<u8>>)
        requires
            self.wf(),
        ensures
            r is Some <==> self.spec_has_texture(id),
            r matches Some(bytes) ==> bytes@ == self.spec_texture_texels(id),
    {
        let index = id.index as usize;
        let list = match id.kind {
            AtlasTextureKind::Monochrome => &self.monochrome_textures,
            AtlasTextureKind::Polychrome => &self.polychrome_textures,
        };
        if index >= list.textures.len() {
            return None;
        }
        match &list.textures[index] {
            Some(texture) => Some(crate::bytes::copy_bytes(&texture.texels)),
            None => None,
        }
    }

    /// Forget every texture and tile: after the GPU device is lost, the
    /// backend recreates resources from scratch.
    pub fn handle_device_lost(&mut self)
        ensures
            final(self).wf(),
            final(self).spec_tiles() == Map::<u64, AtlasTile>::empty(),
            forall|id: AtlasTextureId| !final(self).spec_has_texture(id),
    {
        self.monochrome_textures = AtlasTextureList::new();
        self.polychrome_textures = AtlasTextureList::new();
        self.tiles_by_key.clear();
    }
}

/// Reserve `size` in the texture list of `kind`.
fn kind_allocate(atlas: &mut Atlas, size: Size<DevicePixels>, kind: AtlasTextureKind) -> (r:
    Option<AtlasTile>)
    requires
        old(atlas).wf(),
    ensures
        final(atlas).wf(),
        final(atlas).spec_tiles() == old(atlas).spec_tiles(),
        r matches Some(tile) ==> spec_tile_fits(final(atlas).spec_list(kind), tile, size, kind)
            && tile.texture_id.kind == kind,
        1 <= size.width.0 <= MAX_ATLAS_EDGE && 1 <= size.height.0 <= MAX_ATLAS_EDGE && old(
            atlas,
        ).spec_list(kind).len() < u32::MAX - 1 ==> r is Some,
        forall|k2: AtlasTextureKind| #[trigger] final(atlas).spec_texture_slots(k2) <= old(
            atlas,
        ).spec_texture_slots(k2) + 1,
        forall|other: AtlasTextureId|
            old(atlas).spec_has_texture(other)
                ==> (#[trigger] final(atlas).spec_has_texture(other))
                && final(atlas).spec_texture_texels(other)
                == old(atlas).spec_texture_texels(other)
                && final(atlas).spec_texture_size(other) == old(atlas).spec_texture_size(other),
{
    let r = match kind {
        AtlasTextureKind::Monochrome => atlas.monochrome_textures.allocate(size, kind),
        AtlasTextureKind::Polychrome => atlas.polychrome_textures.allocate(size, kind),
    };
    proof {
        assert forall|other: AtlasTextureId| old(atlas).spec_has_texture(other) implies (
        #[trigger] atlas.spec_has_texture(other)) && atlas.spec_texture_texels(other) == old(
            atlas,
        ).spec_texture_texels(other) && atlas.spec_texture_size(other) == old(
            atlas,
        ).spec_texture_size(other) by {
            if other.kind == kind {
                assert(slot_live(old(atlas).spec_list(kind), other.index as int));
                assert(tex_at(atlas.spec_list(kind), other.index as int).texels == tex_at(
                    old(atlas).spec_list(kind),
                    other.index as int,
                ).texels);
                assert(tex_at(atlas.spec_list(kind), other.index as int).size == tex_at(
                    old(atlas).spec_list(kind),
                    other.index as int,
                ).size);
            }
        }
    }
    r
}

} // verus!
