//! Protocol and encoding layer for a USB LED scrolling name badge.
//!
//! The library turns a logical badge configuration (eight message slots,
//! each holding a one-bit raster together with a scroll effect, a speed and
//! blink/frame flags, plus a global brightness) into the exact report frames
//! that the two supported firmware families expect, and converts rasters to
//! and from grayscale pixel buffers for PNG import and export.  All protocol
//! and packing logic is verified; the PNG container itself is handled by the
//! `png` crate behind a small trusted boundary, and device transport, font
//! discovery and glyph rasterization are left to the surrounding application.

pub mod arg_parser;
pub mod b1248;
pub mod badge;
pub mod bitmap;
pub mod device;
pub mod effect;
pub mod error;
pub mod s1144;
pub mod text;
