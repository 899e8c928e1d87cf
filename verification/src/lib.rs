//! Hierarchical visibility culling for a voxel-world renderer.
//!
//! The world is divided into tiles of 8x8x8 sections; each section is one bit
//! of a 512-bit vector. The library voxelizes view-frustum, fog and
//! world-height cuts into per-tile bitmasks, flood-fills visibility through
//! per-section connectivity graphs, and walks tiles outward from the camera in
//! a dependency-respecting octant order.

pub mod bitset;
pub mod context;
pub mod coords;
pub mod direction;
pub mod graph;
pub mod laws;
pub mod masks;
pub mod sections;
pub mod tile;
pub mod visibility;
