//! Region-of-interest differential video compositing: the verified core.
//!
//! Given decoded YUV 4:2:0 frames and a track of bounding boxes, the library
//! keeps the pixels inside each frame's box and replaces everything else with a
//! flat background, so that an encoder spends its bits on the region of interest.

pub mod bbox;
pub mod error;
pub mod frame;
pub mod compositor;
pub mod track;
pub mod align;
pub mod timing;
pub mod encoder;
pub mod source;
pub mod sink;
pub mod driver;
pub mod baseline;
