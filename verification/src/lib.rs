//! Hex-dump rendering of byte buffers: an address column, a grid of
//! hexadecimal bytes and a column of display characters, laid out in rows
//! of a fixed width that are aligned in address space.

pub mod byte_mapping;
pub mod format;
pub mod hex;
pub mod layout;
pub mod length;
pub mod line;
pub mod lines;
pub mod padding;
pub mod text;

pub use format::{FormatError, HexView, HexViewBuilder};
