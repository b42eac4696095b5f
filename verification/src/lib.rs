//! Core of a real-time rendering engine: handle-based entity arenas, a
//! retained scene graph with fixed-point transforms, the per-frame
//! synchronization state machine around a swapchain, a descriptor cache
//! keyed by draw context, and a dispatcher that turns a scene into an
//! ordered list of draw commands.

pub mod arena;
pub mod math;
pub mod scene;
pub mod cache;
pub mod frame;
pub mod dispatch;
pub mod ui;
