//! Real-time core of a spatial-audio installation controller.
//!
//! The crate mixes a set of virtual sound sources onto a fixed array of
//! physical speaker channels, weighting every contribution by the geometric
//! proximity between a sound's per-channel position on the floor plan and each
//! speaker's position.  All spatial quantities are carried as fixed-point
//! integers (thousandths of a metre, see [`metres`]), so that every step of
//! the pipeline - channel placement, proximity search, the distance-to-gain
//! model and the sample accumulation - has an exact arithmetic meaning that
//! the contracts in this crate state and prove.

pub mod audio;
pub mod buffer;
pub mod geom;
pub mod gui;
pub mod metres;
pub mod mix;
pub mod sound;
pub mod speaker;
