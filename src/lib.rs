//! Sector geometry, relocation planning and resize orchestration for
//! partitions that are shrunk, grown or moved in place.
pub mod geometry;
pub mod relocation;
pub mod filesystem;
pub mod orchestrate;
