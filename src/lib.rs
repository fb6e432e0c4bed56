//! Decision logic of a small real-time renderer: the mip chain of a texture
//! (box filter on the CPU, dispatch plan for the GPU), the slot layout of
//! binding sets, surface configuration and its acquire-retry policy, the
//! per-frame cycle, and the routing of window input.
pub mod mip;
pub mod binding;
pub mod surface;
pub mod frame;
pub mod input;
