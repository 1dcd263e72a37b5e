pub mod application;
pub mod geometry;
pub mod scene;
