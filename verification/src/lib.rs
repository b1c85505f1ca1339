//! Stochastic L-system rewriting and a turtle interpreter that resolves the
//! rewritten symbol stream into a tree of poses, line segments and folios.
//!
//! Everything here works on integers and symbols. Probabilities, lengths and
//! angles are fixed-point numbers; the numeric placement of poses in space is
//! left to whoever draws the scene.

pub mod rule;
pub mod turtle;
pub mod interpret;
pub mod rewrite;
pub mod lsystem;
pub mod plant;
pub mod rewrite_laws;
pub mod turtle_laws;
