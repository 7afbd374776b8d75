pub mod coord;
pub mod spiral;
pub mod sampler;
pub mod style;
pub mod game;
