//! Noise-cancellation control for Bose headphones over the BMAP protocol:
//! packet framing, per-model command builders and status decoders, device
//! selection and report rendering.

pub mod bmap;
pub mod bluetooth;
pub mod device;
pub mod text;
pub mod json;
pub mod error;
pub mod output;
pub mod commands;
