//! Core logic of a hex-grid strategy game: axial/world coordinate
//! conversions, noise-band terrain generation with isolation smoothing,
//! pointer gesture classification, and selection resolution and state.
//!
//! Positions, distances and times are fixed-point integers (thousandths of a
//! world unit, pixel or time unit), so that every computation is exact and
//! verifiable. The presentation layer converts to and from its own
//! floating-point types at the boundary.

pub mod coords;
pub mod geometry;
pub mod generator;
pub mod gesture;
pub mod resolver;
pub mod selection;
pub mod terrain;
pub mod traits;
pub mod units;
