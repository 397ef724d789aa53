//! Layer-shell stacking: anchoring, stacking offsets, composing card frames,
//! and the decisions of the surface loop.

pub mod anchor;
pub mod stack;
pub mod compose;
pub mod session;
