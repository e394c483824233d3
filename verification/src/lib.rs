//! Constraint validation engine for rectangular-room furniture layouts.
//!
//! The engine derives 2D footprints from 3D layout objects and checks them
//! against a fixed set of placement rules: collision detection, clearance and
//! restricted-zone checks, minimum-passage spacing, door-swing clearance, and
//! utility-proximity rules. Every rule is a pure function from the layout
//! document to an ordered list of violations, and every entry point's
//! contract pins that list exactly.

pub mod clearances;
pub mod collisions;
pub mod footprint;
pub mod geometry;
pub mod json;
pub mod laws;
pub mod metrics;
pub mod model;
pub mod normalize;
pub mod openings;
pub mod patch;
pub mod plumbing;
pub mod strutil;
pub mod validate;
