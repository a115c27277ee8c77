//! Decoder, remap engine and text emitter for a fixed-layout binary
//! container of tile-grid maps.
//!
//! The container starts with a 4-byte magic tag and a little-endian
//! 32-bit record count, followed by one 432-byte block per record.
//! Each block holds a length-prefixed name, four little-endian 32-bit
//! fields and a 400-byte tile payload that is reshaped into a 20x20
//! grid. Every tile index is remapped through a fixed lookup table,
//! and a gravity vector and description are derived from the raw
//! value of the sentinel cell at grid position (0, 0). The assembled
//! container is rendered into an indented, human-readable text form.

pub mod container;
pub mod decode;
pub mod emit;
pub mod gravity;
pub mod numfmt;
pub mod remap;
