//! Runtime scene-graph and draw-submission core of a real-time renderer.
//!
//! The crate covers the transform hierarchy (local-to-world matrix
//! propagation over a parent/child forest), frustum culling of axis-aligned
//! bounding boxes, grouping of visible objects into instanced render batches,
//! and a content-addressed resource cache with frame-based eviction.
//!
//! All geometry runs on an exact fixed-point scalar (`fixed`), so every
//! computation here is deterministic and fully specified.

pub mod entity;
pub mod fixed;
pub mod kmap;
pub mod linalg;
pub mod frustum;
pub mod mesh;
pub mod resource;
pub mod scene;
pub mod stat;
pub mod unity;
pub mod utils;
