//! The decision and arithmetic core of a crosshair overlay for Wayland
//! compositors: hex colour parsing, decoding of the crosshair image, the row layout of GPU read-back buffers,
//! the quad the crosshair is drawn on, the tracking of focused toplevel
//! windows, output selection and the render-once lifecycle of the GPU
//! resources.

pub mod color;
pub mod geometry;
pub mod crosshair_image;
pub mod layout;
pub mod lifecycle;
pub mod outputs;
pub mod toplevel;
