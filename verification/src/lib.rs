//! Core of a cross-process GPU texture sharing and input event routing
//! toolkit: a bounded ring buffer and a dynamically growing event bus for
//! input transport, per-window event queues with a routing registry, a
//! double-buffered external texture registry with a glyph/image atlas, and
//! platform-neutral shared texture handles.

pub mod atlas;
pub mod bus;
pub mod bytes;
pub mod canvas;
pub mod clock;
pub mod dmabuf;
pub mod processor;
pub mod ring;
pub mod shared_texture;
pub mod system;
pub mod texture_registry;
pub mod window_queue;

pub use ring::LockFreeRingBuffer;
