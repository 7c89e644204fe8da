//! Procedural 3d mesh generation.
//!
//! An editable polygon mesh: vertices and faces named by identifiers, with
//! operations to create, move, duplicate and extrude them. The mesh is generic
//! over the scalar type `S` of its coordinates. The arithmetic of `S` is the
//! caller's: an operation that computes with coordinates takes the scalar
//! operations it needs as functions, and its contract says how it combines
//! what they return.

pub mod base;
pub mod face;
pub mod vertex;
pub mod vector;
pub mod model;
pub mod lemmas;
pub mod laws;
pub mod mesh;
pub mod wavefrontexport;
pub mod matrix;
