//! Producer-facing double-buffered GPU canvas.
//!
//! A canvas source is a pair of shared texture handles and an active index:
//! the compositor reads the active buffer while the producer writes the
//! other; they trade roles on swap. The canvas element snapshots the active
//! handle before paint so one frame uses one handle throughout.

use vstd::prelude::*;

verus! {

/// Platform-agnostic reference to shared GPU texture memory: an NT handle,
/// an IOSurface id or a DMA-BUF descriptor, all carried as a plain integer.
#[derive(Clone, Copy, Debug, PartialEq, Eq, Structural)]
pub struct GpuTextureHandle {
    /// Platform-native handle to the shared GPU texture memory.
    pub native_handle: isize,
    /// Width of the texture in pixels.
    pub width: u32,
    /// Height of the texture in pixels.
    pub height: u32,
    /// Texture format.
    pub format: GpuTextureFormat,
}

/// GPU texture format, universal across platforms.
#[derive(Clone, Copy, Debug, PartialEq, Eq, Structural)]
pub enum GpuTextureFormat {
    /// 8-bit RGBA, 4 bytes per pixel.
    RGBA8,
    /// 8-bit BGRA, 4 bytes per pixel.
    BGRA8,
    /// 16-bit float RGBA, 8 bytes per pixel (HDR).
    RGBA16F,
}

/// Bytes one pixel occupies in the given format.
pub open spec fn spec_bytes_per_pixel(format: GpuTextureFormat) -> u32 {
    match format {
        GpuTextureFormat::RGBA8 => 4,
        GpuTextureFormat::BGRA8 => 4,
        GpuTextureFormat::RGBA16F => 8,
    }
}

impl GpuTextureHandle {
    /// Create a handle with the default RGBA8 format.
    pub fn new(native_handle: isize, width: u32, height: u32) -> (r: Self)
        ensures
            r == (GpuTextureHandle {
                native_handle,
                width,
                height,
                format: GpuTextureFormat::RGBA8,
            }),
    {
        GpuTextureHandle { native_handle, width, height, format: GpuTextureFormat::RGBA8 }
    }

    /// Create a handle with a specific format.
    pub fn new_with_format(
        native_handle: isize,
        width: u32,
        height: u32,
        format: GpuTextureFormat,
    ) -> (r: Self)
        ensures
            r == (GpuTextureHandle { native_handle, width, height, format }),
    {
        GpuTextureHandle { native_handle, width, height, format }
    }

    /// The size in bytes of a single pixel for this handle's format.
    pub fn bytes_per_pixel(&self) -> (r: u32)
        ensures
            r == spec_bytes_per_pixel(self.format),
    {
        match self.format {
            GpuTextureFormat::RGBA8 => 4,
            GpuTextureFormat::BGRA8 => 4,
            GpuTextureFormat::RGBA16F => 8,
        }
    }

    /// The total size in bytes of the texture.
    pub fn size_in_bytes(&self) -> (r: usize)
        requires
            self.width * self.height * spec_bytes_per_pixel(self.format) <= u32::MAX,
        ensures
            r == self.width * self.height * spec_bytes_per_pixel(self.format),
    {
        proof {
            assert(self.width * self.height <= self.width * self.height * spec_bytes_per_pixel(
                self.format,
            )) by (nonlinear_arith)
                requires
                    spec_bytes_per_pixel(self.format) >= 1,
            ;
        }
        (self.width * self.height * self.bytes_per_pixel()) as usize
    }
}

/// Double-buffered GPU texture source: two handles and the index of the one
/// the compositor currently reads.
#[derive(Clone)]
pub struct GpuCanvasSource {
    active_index: usize,
    buffer0: GpuTextureHandle,
    buffer1: GpuTextureHandle,
}

impl GpuCanvasSource {
    /// The index of the buffer the compositor reads, 0 or 1.
    pub closed spec fn spec_active_index(&self) -> int {
        self.active_index as int
    }

    /// The two shared texture handles.
    pub closed spec fn spec_buffers(&self) -> (GpuTextureHandle, GpuTextureHandle) {
        (self.buffer0, self.buffer1)
    }

    /// The buffer the compositor reads.
    pub open spec fn spec_active_buffer(&self) -> GpuTextureHandle {
        if self.spec_active_index() == 0 {
            self.spec_buffers().0
        } else {
            self.spec_buffers().1
        }
    }

    /// The buffer the producer writes: the sibling of the active one.
    pub open spec fn spec_inactive_buffer(&self) -> GpuTextureHandle {
        if self.spec_active_index() == 0 {
            self.spec_buffers().1
        } else {
            self.spec_buffers().0
        }
    }

    /// At any instant exactly one of the two indices is active.
    pub closed spec fn wf(&self) -> bool {
        self.active_index == 0 || self.active_index == 1
    }

    /// Create a double-buffered source; buffer 0 starts active.
    pub fn new(buffer0: GpuTextureHandle, buffer1: GpuTextureHandle) -> (r: Self)
        ensures
            r.wf(),
            r.spec_active_index() == 0,
            r.spec_buffers() == (buffer0, buffer1),
    {
        GpuCanvasSource { active_index: 0, buffer0, buffer1 }
    }

    /// The currently active buffer, for reading.
    pub fn active_buffer(&self) -> (r: &GpuTextureHandle)
        requires
            self.wf(),
        ensures
            *r == self.spec_active_buffer(),
    {
        if self.active_index == 0 {
            &self.buffer0
        } else {
            &self.buffer1
        }
    }

    /// Toggle to the other buffer (producer side, after rendering a frame).
    pub fn swap_buffers(&mut self)
        requires
            old(self).wf(),
        ensures
            final(self).wf(),
            final(self).spec_active_index() == 1 - old(self).spec_active_index(),
            final(self).spec_buffers() == old(self).spec_buffers(),
    {
        self.active_index = 1 - self.active_index;
    }

    /// Set the active buffer index directly (taken modulo 2).
    pub fn set_active_buffer(&mut self, index: usize)
        ensures
            final(self).wf(),
            final(self).spec_active_index() == index % 2,
            final(self).spec_buffers() == old(self).spec_buffers(),
    {
        self.active_index = index % 2;
    }
}

/// After a swap, the active buffer is the sibling of the buffer that was
/// active immediately before the swap.
pub proof fn lemma_swap_yields_sibling(before: &GpuCanvasSource, after: &GpuCanvasSource)
    requires
        before.wf(),
        after.wf(),
        after.spec_active_index() == 1 - before.spec_active_index(),
        after.spec_buffers() == before.spec_buffers(),
    ensures
        after.spec_active_buffer() == before.spec_inactive_buffer(),
        after.spec_inactive_buffer() == before.spec_active_buffer(),
{
}

/// How a texture is fitted into the element bounds.
#[derive(Clone, Copy, Debug, PartialEq, Eq, Structural)]
pub enum ObjectFit {
    /// Scale preserving aspect ratio so the whole texture is visible.
    Contain,
    /// Scale preserving aspect ratio so the bounds are fully covered.
    Cover,
    /// Stretch to the bounds exactly.
    Fill,
    /// Like `Contain`, but never scale up.
    ScaleDown,
    /// Keep the texture's own size.
    NoneFit,
}

/// Compositor-side leaf element that samples the active texture of a canvas
/// source into its bounds. The paint callback of the host hands (bounds,
/// snapshot, fit) to the GPU-texture paint primitive.
pub struct GpuCanvas {
    source: GpuCanvasSource,
    object_fit: ObjectFit,
}

/// Create a GPU canvas element over the given texture source; the default
/// object fit is `Contain`.
pub fn gpu_canvas(source: GpuCanvasSource) -> (r: GpuCanvas)
    ensures
        r.spec_source() == source,
        r.spec_object_fit() == ObjectFit::Contain,
{
    GpuCanvas { source, object_fit: ObjectFit::Contain }
}

impl GpuCanvas {
    /// The canvas source this element samples.
    pub closed spec fn spec_source(&self) -> GpuCanvasSource {
        self.source
    }

    /// The configured fit mode.
    pub closed spec fn spec_object_fit(&self) -> ObjectFit {
        self.object_fit
    }

    /// Set how the texture fits within the element bounds.
    pub fn object_fit(self, object_fit: ObjectFit) -> (r: Self)
        ensures
            r.spec_source() == self.spec_source(),
            r.spec_object_fit() == object_fit,
    {
        GpuCanvas { source: self.source, object_fit }
    }

    /// Snapshot the currently active handle before paint, so the same handle
    /// is used across prepaint and paint within one frame.
    pub fn prepaint(&self) -> (r: GpuTextureHandle)
        requires
            self.spec_source().wf(),
        ensures
            r == self.spec_source().spec_active_buffer(),
    {
        *self.source.active_buffer()
    }
}

} // verus!
