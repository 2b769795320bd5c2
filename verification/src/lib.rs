//! Scene-graph core for an interactive 3D network viewer.
//!
//! The library models a forest of scene nodes (mesh, material, local
//! transform, optional parent), resolves world transforms through the
//! parent chain, batches nodes into per-mesh instance ranges for a
//! renderer, performs exact two-phase ray picking (bounding box, then
//! triangle), and keeps edge geometry synchronized while a node is
//! dragged along the ground plane.
//!
//! All geometry is carried in fixed-point integers (see [`fixed`]), so
//! every computation here is exact and fully specified: parametric hit
//! distances are exact rationals, and the delicate near-parallel guards
//! of floating-point raycasters become exact zero tests.

pub mod fixed;
pub mod vec3;
pub mod rat;
pub mod mat4;
pub mod transform;
pub mod material;
pub mod node;
pub mod picking_state;
pub mod mesh;
pub mod scene;
pub mod picking;
pub mod batching;
pub mod network;
pub mod mapper;
pub mod interaction;
pub mod demo;
pub mod shaders;
pub mod config;
