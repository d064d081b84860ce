//! Atlas tile caching, packing bounds and slot reuse.

use gpui_core::atlas::{Atlas, AtlasKey, AtlasTextureId, AtlasTextureKind};
use gpui_core::shared_texture::{DevicePixels, Size};

fn device_size(width: i32, height: i32) -> Size<DevicePixels> {
    Size { width: DevicePixels(width), height: DevicePixels(height) }
}

fn mono_key(id: u64) -> AtlasKey {
    AtlasKey { id, kind: AtlasTextureKind::Monochrome }
}

#[test]
fn tiles_are_cached_by_key() {
    let mut atlas = Atlas::new();
    let bytes = vec![9u8; 16 * 16];
    let first = atlas.get_or_insert_with_bytes(mono_key(1), device_size(16, 16), &bytes).unwrap();
    let again = atlas.get_or_insert_with_bytes(mono_key(1), device_size(16, 16), &bytes).unwrap();
    assert_eq!(first, again);
    assert_eq!(first.bounds.size, device_size(16, 16));
    assert_eq!(first.texture_id.kind, AtlasTextureKind::Monochrome);
}

#[test]
fn tiles_lie_inside_the_default_texture() {
    let mut atlas = Atlas::new();
    for id in 0..8u64 {
        let bytes = vec![id as u8; 100 * 50];
        let tile = atlas
            .get_or_insert_with_bytes(mono_key(id), device_size(100, 50), &bytes)
            .unwrap();
        assert!(tile.bounds.origin.x.0 >= 0);
        assert!(tile.bounds.origin.y.0 >= 0);
        assert!(tile.bounds.origin.x.0 + 100 <= 1024);
        assert!(tile.bounds.origin.y.0 + 50 <= 1024);
        assert_eq!(tile.bounds.size, device_size(100, 50));
    }
}

#[test]
fn polychrome_tiles_use_four_bytes_per_pixel() {
    let mut atlas = Atlas::new();
    let key = AtlasKey { id: 3, kind: AtlasTextureKind::Polychrome };
    let bytes = vec![1u8; 8 * 8 * 4];
    let tile = atlas.get_or_insert_with_bytes(key, device_size(8, 8), &bytes).unwrap();
    assert_eq!(tile.texture_id.kind, AtlasTextureKind::Polychrome);
}

#[test]
fn oversized_requests_yield_no_tile() {
    let mut atlas = Atlas::new();
    // Wider than the largest texture edge the backends allow.
    let bytes: Vec<u8> = Vec::new();
    let tile = atlas.get_or_insert_with_bytes(mono_key(9), device_size(20000, 0), &bytes);
    assert!(tile.is_none());
    // The failure is recoverable: a reasonable retry succeeds.
    let bytes = vec![5u8; 4 * 4];
    assert!(atlas.get_or_insert_with_bytes(mono_key(9), device_size(4, 4), &bytes).is_some());
}

#[test]
fn removing_a_key_forgets_its_tile() {
    let mut atlas = Atlas::new();
    let bytes = vec![2u8; 4 * 4];
    let first = atlas.get_or_insert_with_bytes(mono_key(5), device_size(4, 4), &bytes).unwrap();
    let keeper = atlas.get_or_insert_with_bytes(mono_key(6), device_size(4, 4), &bytes).unwrap();
    atlas.remove(&mono_key(5));
    // The key is gone; a new insertion packs a fresh rectangle, while the
    // keeper's tile is served from the cache unchanged.
    let second = atlas.get_or_insert_with_bytes(mono_key(5), device_size(4, 4), &bytes).unwrap();
    assert_ne!(first.bounds.origin, second.bounds.origin);
    let keeper_again =
        atlas.get_or_insert_with_bytes(mono_key(6), device_size(4, 4), &bytes).unwrap();
    assert_eq!(keeper, keeper_again);
    // Removing an unknown key is a no-op.
    atlas.remove(&mono_key(99));
}

#[test]
fn uploads_land_inside_their_own_tiles() {
    let mut atlas = Atlas::new();
    let first_bytes = vec![0xAAu8; 8 * 8];
    let second_bytes = vec![0xBBu8; 8 * 8];
    let first = atlas
        .get_or_insert_with_bytes(mono_key(1), device_size(8, 8), &first_bytes)
        .unwrap();
    let second = atlas
        .get_or_insert_with_bytes(mono_key(2), device_size(8, 8), &second_bytes)
        .unwrap();
    assert_eq!(first.texture_id, second.texture_id);

    let texels = atlas.texture_bytes(first.texture_id).unwrap();
    let width = 1024usize;
    for tile in [(first, 0xAAu8), (second, 0xBBu8)] {
        let (tile, expected) = tile;
        let x = tile.bounds.origin.x.0 as usize;
        let y = tile.bounds.origin.y.0 as usize;
        for row in 0..8 {
            for col in 0..8 {
                assert_eq!(texels[(y + row) * width + x + col], expected);
            }
        }
    }
    // Unallocated space keeps its zeroed contents.
    assert_eq!(texels[1023 * width + 1023], 0);
    assert!(atlas.texture_bytes(AtlasTextureId { index: 9, kind: AtlasTextureKind::Monochrome })
        .is_none());
}

#[test]
fn device_lost_clears_every_tile() {
    let mut atlas = Atlas::new();
    let bytes = vec![3u8; 2 * 2];
    let first = atlas.get_or_insert_with_bytes(mono_key(1), device_size(2, 2), &bytes).unwrap();
    atlas.handle_device_lost();
    let second = atlas.get_or_insert_with_bytes(mono_key(1), device_size(2, 2), &bytes).unwrap();
    assert_eq!(second.texture_id.index, 0);
    assert_eq!(first.bounds.size, second.bounds.size);
}
