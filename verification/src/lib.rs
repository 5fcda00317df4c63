//! Runtime-inspectable descriptions of memory layout.
//!
//! A [`descriptor::Contour`] records the shape of a compiled data type:
//! its fields, their byte offsets, its size, and — for sum types — a rule
//! that resolves the active variant.  A process-wide manager keeps one
//! canonical descriptor per type identity and a generation counter that
//! guards access to live memory.  A projection pairs a descriptor with a
//! base address and lazily exposes the referenced value's fields.

pub mod bytes;
pub mod descriptor;
pub mod prims;
pub mod projection;
pub mod registry;
