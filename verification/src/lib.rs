//! Viewport coordinate engine for an interactively navigable view of the
//! complex plane.
//!
//! The engine keeps the visible complex-plane rectangle, turns discrete user
//! input events (a pointer click, a zoom key press) into new rectangle
//! coordinates by affine recentering and geometric zoom, and republishes the
//! rectangle as the uniform parameters of exactly one on-screen drawable.
//!
//! Coordinates are exact rational numbers rather than floating point, so every
//! navigation step is reproducible bit for bit and the stated geometric ratios
//! hold exactly. A navigation whose result would leave the representable
//! range of a coordinate is a no-op; the rectangle is never corrupted.

pub mod bridge;
pub mod navigation;
pub mod rational;
pub mod rect;
pub mod router;
pub mod store;
pub mod viewer;
