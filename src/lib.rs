//! Locating a title card in a decoded video stream and matching the text read
//! from it against an episode catalog.
pub mod episode;
pub mod error;
pub mod frame;
pub mod paths;
pub mod sampler;
pub mod scan;
pub mod text;
