//! A small computer-vision core: a detection record and a per-frame
//! filtering step.
//!
//! The library models one object detection (class identifier, confidence,
//! bounding box) and a pure, order-preserving selection over a batch of
//! detections belonging to one frame. Confidence and box coordinates are
//! held as plain integers — confidence in thousandths of a unit — so that
//! every operation, including the diagnostic text rendering, has an exact
//! mathematical contract.

pub mod detection;
pub mod filter;
pub mod text;

pub use detection::BoundingBox;
pub use detection::Detection;
pub use filter::Comparison;
pub use filter::FilterConfig;
pub use filter::select;
pub use filter::select_with;
