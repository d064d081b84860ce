//! Cross-platform shared texture handles for zero-copy GPU composition.
//!
//! A shared texture handle is a closed sum over the three OS-level sharing
//! primitives: a Windows NT handle to a D3D shared resource, a macOS
//! IOSurface reference, and a Linux/FreeBSD DMA-BUF file descriptor. The
//! descriptor carries the native reference as a plain integer together with
//! the size and the platform format code; the OS reference count governs the
//! lifetime of the underlying resource.

use vstd::prelude::*;

verus! {

/// A length in device (physical) pixels.
#[derive(Clone, Copy, Debug, PartialEq, Eq, Structural)]
pub struct DevicePixels(pub i32);

/// A two-dimensional extent.
#[derive(Clone, Copy, Debug, PartialEq, Eq, Structural)]
pub struct Size<T> {
    pub width: T,
    pub height: T,
}

/// A position.
#[derive(Clone, Copy, Debug, PartialEq, Eq, Structural)]
pub struct Point<T> {
    pub x: T,
    pub y: T,
}

/// An axis-aligned rectangle: an origin and an extent.
#[derive(Clone, Copy, Debug, PartialEq, Eq, Structural)]
pub struct Bounds<T> {
    pub origin: Point<T>,
    pub size: Size<T>,
}

/// Platform-specific reference to a shared GPU texture.
#[derive(Clone, Copy, Debug, PartialEq, Eq, Structural)]
pub enum SharedTextureHandle {
    /// Windows: an NT kernel handle to a D3D shared resource, with the DXGI
    /// format code. The handle is valid iff non-null.
    D3D11NTHandle { handle: isize, size: Size<DevicePixels>, format: u32 },
    /// macOS: an IOSurface reference (Core Foundation retain/release
    /// discipline), with the Metal pixel-format code. Valid iff non-null.
    IOSurface { io_surface: isize, size: Size<DevicePixels>, format: u32 },
    /// Linux/FreeBSD: a DMA-BUF file descriptor with the DRM format
    /// modifier, the Vulkan format code and the row stride in bytes. Valid
    /// iff the descriptor is non-negative.
    DmaBuf { fd: i32, modifier: u64, size: Size<DevicePixels>, format: u32, stride: u32 },
}

impl SharedTextureHandle {
    /// The size carried by the descriptor.
    pub open spec fn spec_size(&self) -> Size<DevicePixels> {
        match *self {
            SharedTextureHandle::D3D11NTHandle { size, .. } => size,
            SharedTextureHandle::IOSurface { size, .. } => size,
            SharedTextureHandle::DmaBuf { size, .. } => size,
        }
    }

    /// A handle is valid iff its native reference is non-null
    /// (non-negative for a file descriptor).
    pub open spec fn spec_is_valid(&self) -> bool {
        match *self {
            SharedTextureHandle::D3D11NTHandle { handle, .. } => handle != 0,
            SharedTextureHandle::IOSurface { io_surface, .. } => io_surface != 0,
            SharedTextureHandle::DmaBuf { fd, .. } => fd >= 0,
        }
    }

    /// Get the size of the shared texture.
    pub fn size(&self) -> (r: Size<DevicePixels>)
        ensures
            r == self.spec_size(),
    {
        match self {
            SharedTextureHandle::D3D11NTHandle { size, .. } => *size,
            SharedTextureHandle::IOSurface { size, .. } => *size,
            SharedTextureHandle::DmaBuf { size, .. } => *size,
        }
    }

    /// A human-readable description of the handle type.
    pub fn kind_name(&self) -> (r: &'static str)
        ensures
            *self is D3D11NTHandle ==> r@ == "D3D11 NT Handle"@,
            *self is IOSurface ==> r@ == "IOSurface"@,
            *self is DmaBuf ==> r@ == "DMA-BUF"@,
    {
        match self {
            SharedTextureHandle::D3D11NTHandle { .. } => "D3D11 NT Handle",
            SharedTextureHandle::IOSurface { .. } => "IOSurface",
            SharedTextureHandle::DmaBuf { .. } => "DMA-BUF",
        }
    }

    /// Check that the native reference is usable.
    pub fn is_valid(&self) -> (r: bool)
        ensures
            r == self.spec_is_valid(),
    {
        match self {
            SharedTextureHandle::D3D11NTHandle { handle, .. } => *handle != 0,
            SharedTextureHandle::IOSurface { io_surface, .. } => *io_surface != 0,
            SharedTextureHandle::DmaBuf { fd, .. } => *fd >= 0,
        }
    }
}

/// What a renderer needs to resize in external window mode.
#[derive(Debug, Clone, Copy, PartialEq, Eq, Structural)]
pub struct ResizeInfo {
    /// The new physical size in device pixels.
    pub physical_size: Size<DevicePixels>,
    /// Whether to recreate the shared texture.
    pub recreate_shared_texture: bool,
}

impl ResizeInfo {
    /// Resize and recreate the shared texture at the new size.
    pub fn new(physical_size: Size<DevicePixels>) -> (r: Self)
        ensures
            r == (ResizeInfo { physical_size, recreate_shared_texture: true }),
    {
        ResizeInfo { physical_size, recreate_shared_texture: true }
    }

    /// Resize the viewport only, keeping the current shared texture.
    pub fn viewport_only(physical_size: Size<DevicePixels>) -> (r: Self)
        ensures
            r == (ResizeInfo { physical_size, recreate_shared_texture: false }),
    {
        ResizeInfo { physical_size, recreate_shared_texture: false }
    }
}

} // verus!
