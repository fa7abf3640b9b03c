//! Mesh topology handling and mesh validation for signed distance field generation.
//!
//! - [`topology`]: how the triangles of a mesh are read from its indices (lists and
//!   strips, with or without indices).
//! - [`mesh_check`]: checks that a triangle list describes a watertight mesh without
//!   duplicate vertices or faces; [`mesh_laws`] states what a passing check means.
//! - [`rtree_bvh`]: the triangle nodes of the r-tree and bvh acceleration, and the
//!   three-ray inside/outside vote.
//! - [`methods`]: the sign method and the acceleration method.
pub mod mesh_check;
pub mod mesh_laws;
pub mod methods;
pub mod rtree_bvh;
pub mod topology;

pub use mesh_check::{check_mesh_triangle_list, MeshCheckError, VertexKey};
pub use methods::{AccelerationMethod, SignMethod};
pub use rtree_bvh::RtreeBvhNode;
pub use topology::{MeshIndex, OwnedTopology, Topology};
