//! Registry of double-buffered external textures.
//!
//! A producer registers a texture and receives a monotonic id. Each entry
//! holds three byte surfaces: `front`, sampled by the compositor; `back`,
//! receiving the next frame; and `staging`, the CPU-writable surface. The
//! canonical cycle is map, write, unmap (which publishes staging to back and
//! marks a swap pending), swap (which exchanges front and back), then view.
//! Reading the view while a swap is pending is legal and returns the
//! previous frame: that is the tearing-avoidance property. An entry is
//! never both mapped and awaiting a swap.
//!
//! On a GPU backend the three surfaces are textures of the graphics API and
//! the copies are `CopyResource`-style commands; the registry fixes the
//! bookkeeping and the byte contents those commands must produce.

use vstd::prelude::*;

use crate::bytes::{alloc_zeroed, copy_bytes};
use crate::shared_texture::{DevicePixels, Size};

verus! {

/// Monotonic identifier of an external texture within one registry.
#[derive(Clone, Copy, Debug, PartialEq, Eq, Hash, Structural)]
pub struct ExternalTextureId(pub u64);

/// Pixel formats a producer may ask for. The registry accepts the 8-bit
/// RGBA, BGRA and monochrome formats; the HDR format is not supported for
/// external textures.
#[derive(Clone, Copy, Debug, PartialEq, Eq, Structural)]
pub enum ExternalTextureFormat {
    Rgba8,
    Bgra8,
    R8,
    Rgba16F,
}

/// Why a registry operation was refused.
#[derive(Clone, Copy, Debug, PartialEq, Eq, Structural)]
pub enum ExternalTextureError {
    /// The id is unknown to the registry.
    NotFound,
    /// `map` on an entry that is already mapped.
    AlreadyMapped,
    /// A write or `unmap` on an entry that is not mapped.
    NotMapped,
    /// `register` with a format outside the supported set.
    UnsupportedFormat,
}

/// Bytes one pixel occupies in the given format.
pub open spec fn spec_format_bytes_per_pixel(format: ExternalTextureFormat) -> u32 {
    match format {
        ExternalTextureFormat::Rgba8 => 4,
        ExternalTextureFormat::Bgra8 => 4,
        ExternalTextureFormat::R8 => 1,
        ExternalTextureFormat::Rgba16F => 8,
    }
}

/// True iff the registry accepts the format for external textures.
pub open spec fn spec_format_supported(format: ExternalTextureFormat) -> bool {
    match format {
        ExternalTextureFormat::Rgba8 => true,
        ExternalTextureFormat::Bgra8 => true,
        ExternalTextureFormat::R8 => true,
        ExternalTextureFormat::Rgba16F => false,
    }
}

struct ExternalTextureEntry {
    front: Vec<u8>,
    back: Vec<u8>,
    staging: Vec<u8>,
    size: Size<DevicePixels>,
    format: ExternalTextureFormat,
    bytes_per_pixel: u32,
    is_mapped: bool,
    needs_swap: bool,
}

impl ExternalTextureEntry {
    /// The three surfaces are equally sized for the entry's extent and
    /// format, and the entry is never both mapped and awaiting a swap.
    spec fn wf(&self) -> bool {
        &&& self.bytes_per_pixel == spec_format_bytes_per_pixel(self.format)
        &&& spec_format_supported(self.format)
        &&& 0 <= self.size.width.0
        &&& 0 <= self.size.height.0
        &&& self.staging@.len() == self.size.width.0 * self.size.height.0
            * self.bytes_per_pixel
        &&& self.front@.len() == self.staging@.len()
        &&& self.back@.len() == self.staging@.len()
        &&& !(self.is_mapped && self.needs_swap)
    }
}

/// Registry of the external textures of one backend.
#[verifier::ext_equal]
pub struct ExternalTextureRegistry {
    entries: Vec<Option<ExternalTextureEntry>>,
    next_id: u64,
}

impl ExternalTextureRegistry {
    /// True iff `id` was registered and not yet unregistered.
    pub closed spec fn spec_contains(&self, id: ExternalTextureId) -> bool {
        &&& 1 <= id.0 <= self.entries@.len()
        &&& self.entries@[id.0 - 1] is Some
    }

    spec fn entry(&self, id: ExternalTextureId) -> ExternalTextureEntry {
        self.entries@[id.0 - 1]->Some_0
    }

    /// Bytes of the surface the compositor samples.
    pub closed spec fn spec_front(&self, id: ExternalTextureId) -> Seq<u8> {
        self.entry(id).front@
    }

    /// Bytes of the surface that receives the next frame on `unmap`.
    pub closed spec fn spec_back(&self, id: ExternalTextureId) -> Seq<u8> {
        self.entry(id).back@
    }

    /// Bytes of the CPU-writable staging surface.
    pub closed spec fn spec_staging(&self, id: ExternalTextureId) -> Seq<u8> {
        self.entry(id).staging@
    }

    /// True iff the staging surface is mapped for CPU writes.
    pub closed spec fn spec_is_mapped(&self, id: ExternalTextureId) -> bool {
        self.entry(id).is_mapped
    }

    /// True iff an unmapped frame awaits the front/back exchange.
    pub closed spec fn spec_needs_swap(&self, id: ExternalTextureId) -> bool {
        self.entry(id).needs_swap
    }

    /// The extent the texture was registered with.
    pub closed spec fn spec_size(&self, id: ExternalTextureId) -> Size<DevicePixels> {
        self.entry(id).size
    }

    /// The format the texture was registered with.
    pub closed spec fn spec_format(&self, id: ExternalTextureId) -> ExternalTextureFormat {
        self.entry(id).format
    }

    /// The id the next registration will receive.
    pub closed spec fn spec_next_id(&self) -> nat {
        self.next_id as nat
    }

    /// Well-formedness: ids are dense from 1, and every live entry is well
    /// formed.
    pub closed spec fn wf(&self) -> bool {
        &&& self.next_id == self.entries@.len() + 1
        &&& forall|i: int|
            0 <= i < self.entries@.len() && (#[trigger] self.entries@[i]) is Some
                ==> self.entries@[i]->Some_0.wf()
    }

    /// All entries other than `id` are exactly as in `prev`.
    pub open spec fn others_unchanged(&self, prev: &Self, id: ExternalTextureId) -> bool {
        forall|other: ExternalTextureId|
            other != id ==> #[trigger] self.spec_contains(other) == prev.spec_contains(other)
                && (prev.spec_contains(other) ==> self.spec_front(other) == prev.spec_front(other)
                && self.spec_back(other) == prev.spec_back(other) && self.spec_staging(other)
                == prev.spec_staging(other) && self.spec_is_mapped(other) == prev.spec_is_mapped(
                other,
            ) && self.spec_needs_swap(other) == prev.spec_needs_swap(other) && self.spec_size(
                other,
            ) == prev.spec_size(other) && self.spec_format(other) == prev.spec_format(other))
    }

    /// An empty registry; the first registration receives id 1.
    pub fn new() -> (r: Self)
        ensures
            r.wf(),
            r.spec_next_id() == 1,
            forall|id: ExternalTextureId| !r.spec_contains(id),
    {
        ExternalTextureRegistry { entries: Vec::new(), next_id: 1 }
    }

    /// Index into the entry vector for `id`, when the id is live.
    fn find_entry(&self, id: ExternalTextureId) -> (r: Option<usize>)
        requires
            self.wf(),
        ensures
            match r {
                Some(i) => self.spec_contains(id) && i as int == id.0 - 1,
                None => !self.spec_contains(id),
            },
    {
        if id.0 >= 1 && id.0 <= self.entries.len() as u64 {
            let idx = (id.0 - 1) as usize;
            if self.entries[idx].is_some() {
                Some(idx)
            } else {
                None
            }
        } else {
            None
        }
    }

    /// Register a texture of the given extent and format. Succeeds exactly
    /// on the supported formats, returning a fresh id whose three surfaces
    /// are zeroed and whose state machine starts unmapped with no swap
    /// pending. On an unsupported format the registry is unchanged.
    pub fn register_external_texture(
        &mut self,
        size: Size<DevicePixels>,
        format: ExternalTextureFormat,
    ) -> (r: Result<ExternalTextureId, ExternalTextureError>)
        requires
            old(self).wf(),
            0 <= size.width.0,
            0 <= size.height.0,
            size.width.0 * size.height.0 * spec_format_bytes_per_pixel(format) <= usize::MAX,
            old(self).spec_next_id() < u64::MAX,
        ensures
            final(self).wf(),
            spec_format_supported(format) ==> {
                &&& r == Ok::<ExternalTextureId, ExternalTextureError>(
                    ExternalTextureId(old(self).spec_next_id() as u64),
                )
                &&& final(self).spec_next_id() == old(self).spec_next_id() + 1
                &&& final(self).spec_contains(r->Ok_0)
                &&& final(self).spec_size(r->Ok_0) == size
                &&& final(self).spec_format(r->Ok_0) == format
                &&& !final(self).spec_is_mapped(r->Ok_0)
                &&& !final(self).spec_needs_swap(r->Ok_0)
                &&& final(self).spec_front(r->Ok_0) == Seq::new(
                    (size.width.0 * size.height.0 * spec_format_bytes_per_pixel(format)) as nat,
                    |i: int| 0u8,
                )
                &&& final(self).spec_back(r->Ok_0) == final(self).spec_front(r->Ok_0)
                &&& final(self).spec_staging(r->Ok_0) == final(self).spec_front(r->Ok_0)
                &&& final(self).others_unchanged(old(self), r->Ok_0)
            },
            !spec_format_supported(format) ==> r == Err::<ExternalTextureId,
                ExternalTextureError,
            >(ExternalTextureError::UnsupportedFormat) && *final(self) == *old(self),
    {
        let bytes_per_pixel: u32 = match format {
            ExternalTextureFormat::Rgba8 => 4,
            ExternalTextureFormat::Bgra8 => 4,
            ExternalTextureFormat::R8 => 1,
            ExternalTextureFormat::Rgba16F => {
                return Err(ExternalTextureError::UnsupportedFormat);
            },
        };
        proof {
            assert((size.width.0 as int) * (size.height.0 as int) <= (size.width.0 as int) * (
            size.height.0 as int) * (bytes_per_pixel as int)) by (nonlinear_arith)
                requires
                    0 <= size.width.0,
                    0 <= size.height.0,
                    1 <= bytes_per_pixel,
            ;
        }
        let width = size.width.0 as usize;
        let height = size.height.0 as usize;
        let total = width * height * (bytes_per_pixel as usize);
        let front = alloc_zeroed(total);
        let back = alloc_zeroed(total);
        let staging = alloc_zeroed(total);
        let id = ExternalTextureId(self.next_id);
        self.next_id = self.next_id + 1;
        self.entries.push(
            Some(
                ExternalTextureEntry {
                    front,
                    back,
                    staging,
                    size,
                    format,
                    bytes_per_pixel,
                    is_mapped: false,
                    needs_swap: false,
                },
            ),
        );
        Ok(id)
    }

    /// Map the staging surface for CPU writes. Fails with `NotFound` for an
    /// unknown id and `AlreadyMapped` for a mapped one; on failure the
    /// registry is unchanged.
    pub fn map_external_texture(&mut self, id: ExternalTextureId) -> (r: Result<
        (),
        ExternalTextureError,
    >)
        requires
            old(self).wf(),
        ensures
            final(self).wf(),
            !old(self).spec_contains(id) ==> r == Err::<(), ExternalTextureError>(
                ExternalTextureError::NotFound,
            ) && *final(self) == *old(self),
            old(self).spec_contains(id) && old(self).spec_is_mapped(id) ==> r == Err::<
                (),
                ExternalTextureError,
            >(ExternalTextureError::AlreadyMapped) && *final(self) == *old(self),
            old(self).spec_contains(id) && !old(self).spec_is_mapped(id) ==> {
                &&& r is Ok
                &&& final(self).spec_is_mapped(id)
                &&& !final(self).spec_needs_swap(id)
                &&& final(self).spec_contains(id)
                &&& final(self).spec_front(id) == old(self).spec_front(id)
                &&& final(self).spec_back(id) == old(self).spec_back(id)
                &&& final(self).spec_staging(id) == old(self).spec_staging(id)
                &&& final(self).spec_size(id) == old(self).spec_size(id)
                &&& final(self).spec_format(id) == old(self).spec_format(id)
                &&& final(self).spec_next_id() == old(self).spec_next_id()
                &&& final(self).others_unchanged(old(self), id)
            },
    {
        let idx = match self.find_entry(id) {
            Some(idx) => idx,
            None => {
                return Err(ExternalTextureError::NotFound);
            },
        };
        let already_mapped = match &self.entries[idx] {
            Some(entry) => entry.is_mapped,
            None => {
                proof {
                    assert(false);
                }
                false
            },
        };
        if already_mapped {
            return Err(ExternalTextureError::AlreadyMapped);
        }
        let mut entry = match self.entries[idx].take() {
            Some(entry) => entry,
            None => {
                proof {
                    assert(false);
                }
                return Err(ExternalTextureError::NotFound);
            },
        };
        entry.is_mapped = true;
        entry.needs_swap = false;
        self.entries.set(idx, Some(entry));
        Ok(())
    }

    /// Write `data` into the mapped staging surface at byte `offset`.
    /// Fails with `NotFound` for an unknown id and `NotMapped` when the
    /// surface is not mapped; the write must lie within the surface.
    pub fn write_mapped_texture(
        &mut self,
        id: ExternalTextureId,
        offset: usize,
        data: &Vec<u8>,
    ) -> (r: Result<(), ExternalTextureError>)
        requires
            old(self).wf(),
            old(self).spec_contains(id) && old(self).spec_is_mapped(id) ==> offset + data@.len()
                <= old(self).spec_staging(id).len(),
        ensures
            final(self).wf(),
            !old(self).spec_contains(id) ==> r == Err::<(), ExternalTextureError>(
                ExternalTextureError::NotFound,
            ) && *final(self) == *old(self),
            old(self).spec_contains(id) && !old(self).spec_is_mapped(id) ==> r == Err::<
                (),
                ExternalTextureError,
            >(ExternalTextureError::NotMapped) && *final(self) == *old(self),
            old(self).spec_contains(id) && old(self).spec_is_mapped(id) ==> {
                &&& r is Ok
                &&& final(self).spec_contains(id)
                &&& final(self).spec_staging(id) == old(self).spec_staging(id).subrange(
                    0,
                    offset as int,
                ) + data@ + old(self).spec_staging(id).subrange(
                    offset + data@.len(),
                    old(self).spec_staging(id).len() as int,
                )
                &&& final(self).spec_front(id) == old(self).spec_front(id)
                &&& final(self).spec_back(id) == old(self).spec_back(id)
                &&& final(self).spec_is_mapped(id)
                &&& !final(self).spec_needs_swap(id)
                &&& final(self).spec_size(id) == old(self).spec_size(id)
                &&& final(self).spec_format(id) == old(self).spec_format(id)
                &&& final(self).spec_next_id() == old(self).spec_next_id()
                &&& final(self).others_unchanged(old(self), id)
            },
    {
        let idx = match self.find_entry(id) {
            Some(idx) => idx,
            None => {
                return Err(ExternalTextureError::NotFound);
            },
        };
        let was_mapped = match &self.entries[idx] {
            Some(entry) => entry.is_mapped,
            None => {
                proof {
                    assert(false);
                }
                false
            },
        };
        if !was_mapped {
            return Err(ExternalTextureError::NotMapped);
        }
        let mut entry = match self.entries[idx].take() {
            Some(entry) => entry,
            None => {
                proof {
                    assert(false);
                }
                return Err(ExternalTextureError::NotFound);
            },
        };
        let staging_len = entry.staging.len();
        let mut k: usize = 0;
        proof {
            assert(offset + data@.len() <= usize::MAX);
        }
        while k < data.len()
            invariant
                k <= data@.len(),
                offset + data@.len() <= usize::MAX,
                offset + data@.len() <= entry.staging@.len(),
                entry.staging@.len() == old(self).spec_staging(id).len(),
                forall|j: int|
                    0 <= j < k ==> #[trigger] entry.staging@[offset + j] == data@[j],
                forall|j: int|
                    0 <= j < entry.staging@.len() && !(offset <= j < offset + k)
                        ==> #[trigger] entry.staging@[j] == old(self).spec_staging(id)[j],
                entry.front@ == old(self).spec_front(id),
                entry.back@ == old(self).spec_back(id),
                entry.size == old(self).spec_size(id),
                entry.format == old(self).spec_format(id),
                entry.bytes_per_pixel == old(self).entry(id).bytes_per_pixel,
                entry.is_mapped == old(self).entry(id).is_mapped,
                entry.needs_swap == old(self).entry(id).needs_swap,
            decreases data@.len() - k,
        {
            let byte = data[k];
            entry.staging.set(offset + k, byte);
            k += 1;
        }
        proof {
            let target = old(self).spec_staging(id).subrange(0, offset as int) + data@ + old(
                self,
            ).spec_staging(id).subrange(
                offset + data@.len(),
                old(self).spec_staging(id).len() as int,
            );
            assert forall|j: int| 0 <= j < entry.staging@.len() implies entry.staging@[j]
                == target[j] by {
                if offset <= j < offset + data@.len() {
                    assert(entry.staging@[offset + (j - offset)] == data@[j - offset]);
                }
            }
            assert(entry.staging@ =~= target);
        }
        self.entries.set(idx, Some(entry));
        Ok(())
    }

    /// Publish the mapped writes: copy the staging surface to the back
    /// surface, unmap, and mark a swap pending. Fails with `NotFound` for an
    /// unknown id and `NotMapped` when no map is outstanding.
    pub fn unmap_external_texture(&mut self, id: ExternalTextureId) -> (r: Result<
        (),
        ExternalTextureError,
    >)
        requires
            old(self).wf(),
        ensures
            final(self).wf(),
            !old(self).spec_contains(id) ==> r == Err::<(), ExternalTextureError>(
                ExternalTextureError::NotFound,
            ) && *final(self) == *old(self),
            old(self).spec_contains(id) && !old(self).spec_is_mapped(id) ==> r == Err::<
                (),
                ExternalTextureError,
            >(ExternalTextureError::NotMapped) && *final(self) == *old(self),
            old(self).spec_contains(id) && old(self).spec_is_mapped(id) ==> {
                &&& r is Ok
                &&& final(self).spec_contains(id)
                &&& !final(self).spec_is_mapped(id)
                &&& final(self).spec_needs_swap(id)
                &&& final(self).spec_back(id) == old(self).spec_staging(id)
                &&& final(self).spec_staging(id) == old(self).spec_staging(id)
                &&& final(self).spec_front(id) == old(self).spec_front(id)
                &&& final(self).spec_size(id) == old(self).spec_size(id)
                &&& final(self).spec_format(id) == old(self).spec_format(id)
                &&& final(self).spec_next_id() == old(self).spec_next_id()
                &&& final(self).others_unchanged(old(self), id)
            },
    {
        let idx = match self.find_entry(id) {
            Some(idx) => idx,
            None => {
                return Err(ExternalTextureError::NotFound);
            },
        };
        let was_mapped = match &self.entries[idx] {
            Some(entry) => entry.is_mapped,
            None => {
                proof {
                    assert(false);
                }
                false
            },
        };
        if !was_mapped {
            return Err(ExternalTextureError::NotMapped);
        }
        let mut entry = match self.entries[idx].take() {
            Some(entry) => entry,
            None => {
                proof {
                    assert(false);
                }
                return Err(ExternalTextureError::NotFound);
            },
        };
        entry.back = copy_bytes(&entry.staging);
        entry.is_mapped = false;
        entry.needs_swap = true;
        self.entries.set(idx, Some(entry));
        Ok(())
    }

    /// Exchange the front and back surfaces if a swap is pending; idempotent
    /// when nothing is pending. Fails with `NotFound` for an unknown id.
    pub fn swap_external_texture_buffers(&mut self, id: ExternalTextureId) -> (r: Result<
        (),
        ExternalTextureError,
    >)
        requires
            old(self).wf(),
        ensures
            final(self).wf(),
            !old(self).spec_contains(id) ==> r == Err::<(), ExternalTextureError>(
                ExternalTextureError::NotFound,
            ) && *final(self) == *old(self),
            old(self).spec_contains(id) && !old(self).spec_needs_swap(id)
                ==> r is Ok && *final(self) == *old(self),
            old(self).spec_contains(id) && old(self).spec_needs_swap(id) ==> {
                &&& r is Ok
                &&& final(self).spec_contains(id)
                &&& final(self).spec_front(id) == old(self).spec_back(id)
                &&& final(self).spec_back(id) == old(self).spec_front(id)
                &&& final(self).spec_staging(id) == old(self).spec_staging(id)
                &&& !final(self).spec_needs_swap(id)
                &&& !final(self).spec_is_mapped(id)
                &&& final(self).spec_size(id) == old(self).spec_size(id)
                &&& final(self).spec_format(id) == old(self).spec_format(id)
                &&& final(self).spec_next_id() == old(self).spec_next_id()
                &&& final(self).others_unchanged(old(self), id)
            },
    {
        let idx = match self.find_entry(id) {
            Some(idx) => idx,
            None => {
                return Err(ExternalTextureError::NotFound);
            },
        };
        let pending = match &self.entries[idx] {
            Some(entry) => entry.needs_swap,
            None => {
                proof {
                    assert(false);
                }
                false
            },
        };
        if !pending {
            return Ok(());
        }
        let mut entry = match self.entries[idx].take() {
            Some(entry) => entry,
            None => {
                proof {
                    assert(false);
                }
                return Err(ExternalTextureError::NotFound);
            },
        };
        core::mem::swap(&mut entry.front, &mut entry.back);
        entry.needs_swap = false;
        self.entries.set(idx, Some(entry));
        Ok(())
    }

    /// The bytes the compositor currently samples: the front surface as of
    /// the last completed swap. Fails with `NotFound` for an unknown id.
    pub fn get_external_texture_view(&self, id: ExternalTextureId) -> (r: Result<
        Vec<u8>,
        ExternalTextureError,
    >)
        requires
            self.wf(),
        ensures
            !self.spec_contains(id) ==> r == Err::<Vec<u8>, ExternalTextureError>(
                ExternalTextureError::NotFound,
            ),
            self.spec_contains(id) ==> r is Ok && r->Ok_0@ == self.spec_front(id),
    {
        let idx = match self.find_entry(id) {
            Some(idx) => idx,
            None => {
                return Err(ExternalTextureError::NotFound);
            },
        };
        match &self.entries[idx] {
            Some(entry) => Ok(copy_bytes(&entry.front)),
            None => {
                proof {
                    assert(false);
                }
                Err(ExternalTextureError::NotFound)
            },
        }
    }

    /// Drop a texture and its three surfaces. The id is never reused.
    pub fn unregister_external_texture(&mut self, id: ExternalTextureId)
        requires
            old(self).wf(),
        ensures
            final(self).wf(),
            !final(self).spec_contains(id),
            final(self).spec_next_id() == old(self).spec_next_id(),
            final(self).others_unchanged(old(self), id),
    {
        match self.find_entry(id) {
            Some(idx) => {
                let dropped = self.entries[idx].take();
            },
            None => {
            },
        }
    }
}

/// An entry's mapping state machine never reaches a state that is both
/// mapped for CPU writes and awaiting a front/back swap.
pub proof fn lemma_never_mapped_and_swap_pending(
    registry: &ExternalTextureRegistry,
    id: ExternalTextureId,
)
    requires
        registry.wf(),
        registry.spec_contains(id),
    ensures
        !(registry.spec_is_mapped(id) && registry.spec_needs_swap(id)),
{
}

} // verus!
