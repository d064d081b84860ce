//! DMA-BUF export: turning an exported file descriptor into a shared
//! texture handle.
//!
//! The host obtains the descriptor from the graphics backend's
//! external-memory extension (`None` when the extension is unavailable);
//! this module fixes what the resulting handle carries. A missing capability
//! yields no handle, never an error, so callers can downgrade gracefully.

use vstd::prelude::*;

use crate::shared_texture::{DevicePixels, SharedTextureHandle, Size};

verus! {

/// Build the shared texture handle for a texture exported as a DMA-BUF.
/// `fd` is the descriptor the external-memory extension returned, or `None`
/// when the extension is unavailable. The handle assumes a linear layout
/// (modifier 0) and 4 bytes per pixel (RGBA/BGRA), so the stride is four
/// times the width. The caller owns the descriptor.
pub fn export_texture_as_dmabuf(fd: Option<i32>, size: Size<DevicePixels>, format: u32) -> (r:
    Option<SharedTextureHandle>)
    requires
        0 <= size.width.0,
        size.width.0 * 4 <= u32::MAX,
    ensures
        r is Some <==> fd is Some,
        fd is Some ==> r == Some(
            SharedTextureHandle::DmaBuf {
                fd: fd->Some_0,
                modifier: 0,
                size,
                format,
                stride: (size.width.0 * 4) as u32,
            },
        ),
{
    match fd {
        Some(fd) => {
            let stride = (size.width.0 as u32) * 4;
            Some(SharedTextureHandle::DmaBuf { fd, modifier: 0u64, size, format, stride })
        },
        None => None,
    }
}

} // verus!
