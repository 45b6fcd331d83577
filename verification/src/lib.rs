//! Ownership handoff of byte buffers and text across a call boundary.
//!
//! A buffer or a text value that crosses the boundary is owned by exactly one
//! side at a time. The handles of this crate are move-only values: handing one
//! over moves it, and reclaiming it consumes it, so that a handle can neither
//! be reclaimed twice nor used after it was given back.

pub mod buffer;
pub mod calls;
pub mod digest;
pub mod text;
