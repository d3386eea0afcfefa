//! Decoder for the Byte Stream Split (BSS) binary layout.
//!
//! A BSS buffer stores a sequence of fixed-width numeric values transposed:
//! byte 0 of every value first (plane 0), then byte 1 of every value
//! (plane 1), and so on. The decoder validates a buffer against a declared
//! element width and then reconstructs the original values, one per call,
//! in their original order.

pub mod decoder;
pub mod error;
pub mod native;
