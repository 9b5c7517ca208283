//! What the library promises as a whole: laws that relate inputs and results, each proved for all
//! inputs.

pub mod edges;
pub mod features;
pub mod matching;
pub mod overlap;
pub mod pixels;
pub mod progress;
pub mod screen;
pub mod session;
pub mod spread;
pub mod stillness;
pub mod stitching;
pub mod text;
pub mod words;
