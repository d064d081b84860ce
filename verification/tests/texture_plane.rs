//! External textures, shared handles, the canvas source and DMA-BUF export.

use gpui_core::canvas::{gpu_canvas, GpuCanvasSource, GpuTextureFormat, GpuTextureHandle, ObjectFit};
use gpui_core::dmabuf::export_texture_as_dmabuf;
use gpui_core::shared_texture::{DevicePixels, ResizeInfo, SharedTextureHandle, Size};
use gpui_core::texture_registry::{
    ExternalTextureError, ExternalTextureFormat, ExternalTextureRegistry,
};

fn device_size(width: i32, height: i32) -> Size<DevicePixels> {
    Size { width: DevicePixels(width), height: DevicePixels(height) }
}

#[test]
fn external_texture_double_buffer_round_trip() {
    let mut registry = ExternalTextureRegistry::new();
    let id = registry
        .register_external_texture(device_size(64, 64), ExternalTextureFormat::Bgra8)
        .unwrap();

    // Fill the staging surface with "red" BGRA pixels and publish them.
    let red: Vec<u8> = [0u8, 0, 255, 255].repeat(64 * 64);
    registry.map_external_texture(id).unwrap();
    registry.write_mapped_texture(id, 0, &red).unwrap();
    registry.unmap_external_texture(id).unwrap();

    // Until the swap runs the compositor still reads the previous frame.
    let before_swap = registry.get_external_texture_view(id).unwrap();
    assert_eq!(before_swap, vec![0u8; 64 * 64 * 4]);

    registry.swap_external_texture_buffers(id).unwrap();
    let sampled = registry.get_external_texture_view(id).unwrap();
    assert_eq!(sampled, red);

    // Second frame: green. After its swap the red frame is retired to the
    // back buffer and the compositor samples green.
    let green: Vec<u8> = [0u8, 255, 0, 255].repeat(64 * 64);
    registry.map_external_texture(id).unwrap();
    registry.write_mapped_texture(id, 0, &green).unwrap();
    registry.unmap_external_texture(id).unwrap();
    registry.swap_external_texture_buffers(id).unwrap();
    let sampled = registry.get_external_texture_view(id).unwrap();
    assert_eq!(sampled, green);

    // A third frame written without any new upload swaps nothing: the swap
    // is idempotent when no frame is pending.
    registry.swap_external_texture_buffers(id).unwrap();
    let sampled = registry.get_external_texture_view(id).unwrap();
    assert_eq!(sampled, green);
}

#[test]
fn external_texture_partial_write_offsets() {
    let mut registry = ExternalTextureRegistry::new();
    let id = registry
        .register_external_texture(device_size(2, 2), ExternalTextureFormat::R8)
        .unwrap();
    registry.map_external_texture(id).unwrap();
    registry.write_mapped_texture(id, 1, &vec![7u8, 8u8]).unwrap();
    registry.unmap_external_texture(id).unwrap();
    registry.swap_external_texture_buffers(id).unwrap();
    let sampled = registry.get_external_texture_view(id).unwrap();
    assert_eq!(sampled, vec![0u8, 7, 8, 0]);
}

#[test]
fn external_texture_errors() {
    let mut registry = ExternalTextureRegistry::new();

    assert_eq!(
        registry.register_external_texture(device_size(8, 8), ExternalTextureFormat::Rgba16F),
        Err(ExternalTextureError::UnsupportedFormat)
    );

    let missing = gpui_core::texture_registry::ExternalTextureId(999);
    assert_eq!(registry.map_external_texture(missing), Err(ExternalTextureError::NotFound));
    assert_eq!(registry.unmap_external_texture(missing), Err(ExternalTextureError::NotFound));
    assert_eq!(
        registry.swap_external_texture_buffers(missing),
        Err(ExternalTextureError::NotFound)
    );
    assert!(registry.get_external_texture_view(missing).is_err());

    let id = registry
        .register_external_texture(device_size(4, 4), ExternalTextureFormat::Rgba8)
        .unwrap();
    assert_eq!(id.0, 1);
    assert_eq!(registry.unmap_external_texture(id), Err(ExternalTextureError::NotMapped));
    assert_eq!(
        registry.write_mapped_texture(id, 0, &vec![1u8]),
        Err(ExternalTextureError::NotMapped)
    );
    registry.map_external_texture(id).unwrap();
    assert_eq!(registry.map_external_texture(id), Err(ExternalTextureError::AlreadyMapped));

    registry.unregister_external_texture(id);
    assert_eq!(registry.map_external_texture(id), Err(ExternalTextureError::NotFound));

    // Ids are monotonic and never reused.
    let next = registry
        .register_external_texture(device_size(4, 4), ExternalTextureFormat::Rgba8)
        .unwrap();
    assert_eq!(next.0, 2);
}

#[test]
fn shared_texture_handle_descriptors() {
    let nt = SharedTextureHandle::D3D11NTHandle {
        handle: 0x1234,
        size: device_size(800, 600),
        format: 87,
    };
    assert_eq!(nt.size(), device_size(800, 600));
    assert_eq!(nt.kind_name(), "D3D11 NT Handle");
    assert!(nt.is_valid());
    let null_nt = SharedTextureHandle::D3D11NTHandle {
        handle: 0,
        size: device_size(800, 600),
        format: 87,
    };
    assert!(!null_nt.is_valid());

    let surface = SharedTextureHandle::IOSurface {
        io_surface: 0x8000,
        size: device_size(640, 480),
        format: 80,
    };
    assert_eq!(surface.kind_name(), "IOSurface");
    assert!(surface.is_valid());

    let dmabuf = SharedTextureHandle::DmaBuf {
        fd: 5,
        modifier: 0,
        size: device_size(320, 200),
        format: 44,
        stride: 1280,
    };
    assert_eq!(dmabuf.kind_name(), "DMA-BUF");
    assert!(dmabuf.is_valid());
    let bad_fd = SharedTextureHandle::DmaBuf {
        fd: -1,
        modifier: 0,
        size: device_size(320, 200),
        format: 44,
        stride: 1280,
    };
    assert!(!bad_fd.is_valid());
}

#[test]
fn resize_info_modes() {
    let size = device_size(1920, 1080);
    let full = ResizeInfo::new(size);
    assert!(full.recreate_shared_texture);
    assert_eq!(full.physical_size, size);
    let viewport = ResizeInfo::viewport_only(size);
    assert!(!viewport.recreate_shared_texture);
    assert_eq!(viewport.physical_size, size);
}

#[test]
fn dmabuf_export_builds_the_handle() {
    let size = device_size(256, 128);
    let exported = export_texture_as_dmabuf(Some(17), size, 44);
    match exported {
        Some(SharedTextureHandle::DmaBuf { fd, modifier, size: s, format, stride }) => {
            assert_eq!(fd, 17);
            assert_eq!(modifier, 0);
            assert_eq!(s, size);
            assert_eq!(format, 44);
            assert_eq!(stride, 1024);
        },
        _ => panic!("expected a DMA-BUF handle"),
    }
    assert!(exported.unwrap().is_valid());

    // A missing external-memory capability yields no handle, not an error.
    assert!(export_texture_as_dmabuf(None, size, 44).is_none());
}

#[test]
fn gpu_texture_handle_sizes() {
    let handle = GpuTextureHandle::new(42, 64, 64);
    assert_eq!(handle.format, GpuTextureFormat::RGBA8);
    assert_eq!(handle.bytes_per_pixel(), 4);
    assert_eq!(handle.size_in_bytes(), 64 * 64 * 4);

    let hdr = GpuTextureHandle::new_with_format(42, 10, 10, GpuTextureFormat::RGBA16F);
    assert_eq!(hdr.bytes_per_pixel(), 8);
    assert_eq!(hdr.size_in_bytes(), 800);

    let bgra = GpuTextureHandle::new_with_format(42, 3, 5, GpuTextureFormat::BGRA8);
    assert_eq!(bgra.bytes_per_pixel(), 4);
    assert_eq!(bgra.size_in_bytes(), 60);
}

#[test]
fn canvas_source_swap_returns_sibling() {
    let buffer0 = GpuTextureHandle::new(100, 64, 64);
    let buffer1 = GpuTextureHandle::new(200, 64, 64);
    let mut source = GpuCanvasSource::new(buffer0, buffer1);

    let before = *source.active_buffer();
    assert_eq!(before, buffer0);

    source.swap_buffers();
    let after = *source.active_buffer();
    assert_eq!(after, buffer1);
    assert_ne!(after, before);

    source.swap_buffers();
    assert_eq!(*source.active_buffer(), buffer0);

    source.set_active_buffer(5);
    assert_eq!(*source.active_buffer(), buffer1);
    source.set_active_buffer(2);
    assert_eq!(*source.active_buffer(), buffer0);
}

#[test]
fn gpu_canvas_snapshots_active_handle() {
    let buffer0 = GpuTextureHandle::new(1, 32, 32);
    let buffer1 = GpuTextureHandle::new(2, 32, 32);
    let mut source = GpuCanvasSource::new(buffer0, buffer1);
    source.swap_buffers();

    let canvas = gpu_canvas(source).object_fit(ObjectFit::Cover);
    assert_eq!(canvas.prepaint(), buffer1);
}
