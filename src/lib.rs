//! Integer core of an orthographic sphere renderer: per-pixel compositing
//! of shaded sphere layers into an RGB image, the batch scheduler that
//! bounds how many frames render at once, and frame file naming.
pub mod canvas;
pub mod color;
pub mod config;
pub mod naming;
pub mod render;
pub mod schedule;
