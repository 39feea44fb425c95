//! Verified core of a small Vulkan game engine: the stage schedule and the
//! systems that modules register into it, per-frame synchronisation indices,
//! swapchain and physical-device selection, image-view bookkeeping and the
//! decisions that the engine takes on window input.

pub mod schedule;
pub mod modules;
pub mod frame_sync;
pub mod swapchain;
pub mod device;
pub mod events;
pub mod image;
pub mod workloads;
pub mod materials;
pub mod commands;
