//! Terminal escape-sequence decoding and a renderer that turns high-level
//! drawing changes into operations on a legacy console screen buffer.

pub mod cell;
pub mod color;
pub mod csi;
pub mod encode;
pub mod escape;
pub mod osc;
pub mod render;
pub mod surface;
