//! A layered flex-box layout resolver.
//!
//! Given an ordered list of layout participants — each exposing a fill
//! weight per axis, a layer index, and a recursive "compute my own layout
//! within these constraints" operation — the resolver computes a concrete
//! geometry (size and relative position) for every participant, honoring
//! fill-weighting, padding, spacing, cross-axis alignment, and a z-ordering
//! ("layer") concept: participants in the same layer flow together like an
//! ordinary flex box, while distinct layers overlap at the same origin and
//! contribute independently to the overall bounding box.
//!
//! All lengths are whole pixels (`u32`); a maximum constraint may also be
//! infinite. The resolver is a pure function of its inputs: every public
//! operation carries a contract that pins its result down to a mathematical
//! model.

pub mod align;
pub mod block;
pub mod fixed;
pub mod flex;
pub mod geometry;
pub mod layer;
pub mod laws;
pub mod length;
pub mod limits;
pub mod node;
pub mod participant;
