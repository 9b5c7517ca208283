//! Decisions behind a scrolling screenshot: where two captured frames overlap, when the page has
//! stopped moving, and how the captured frames become one tall image.

pub mod band;
pub mod capture;
pub mod capture_progress;
pub mod cli;
pub mod difference;
pub mod edges;
pub mod error;
pub mod features;
pub mod laws;
pub mod matching;
pub mod math;
pub mod overlap;
pub mod raster;
pub mod region;
pub mod score;
pub mod screen_rect;
pub mod scroll;
pub mod session;
pub mod stitch;
pub mod text_band;
pub mod vision;
pub mod window;
