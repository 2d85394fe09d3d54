//! Helpers of the web user interface.

pub mod active;
pub mod colormap;
pub mod input;
pub mod patch;
pub mod recorder;
pub mod request;
