//! A plane-grouped triangle topology index over a deduplicated mesh.
//!
//! Coordinates are fixed-point integers (see [`geom::COORD_SCALE`]), so every
//! geometric predicate here — plane coincidence, ray/triangle intersection,
//! nearest-hit selection — is computed exactly and carries a proved contract.

pub mod container;
pub mod geom;
pub mod mesh;
pub mod plane;
pub mod ray;
pub mod render;
pub mod topology;
