//! A proximity-driven octree for level-of-detail management of a spherical
//! body.
//!
//! Space is subdivided into an axis-aligned octree whose refinement follows a
//! set of observer positions: a node splits into its eight octants whenever an
//! observer comes strictly closer to the node's centre than the node's
//! characteristic size, and collapses back otherwise.  All geometry is carried
//! in fixed-point integer coordinates so that every decision the engine makes
//! is exact and verified.

pub mod bounds;
pub mod octree;
pub mod planet;
