//! Draws an RGB raster inside a rectangle of terminal cells, two pixel rows
//! per cell, with every placement rule stated as a contract and proved.
//!
//! `geometry` places and sizes the image, `pixmap` holds and resamples it,
//! `canvas` paints half blocks into a `tui` buffer, `render` puts the three
//! together, and `widget` is the configurable widget on top.

pub mod canvas;
pub mod geometry;
pub mod pixmap;
pub mod render;
pub mod widget;

pub use crate::geometry::{compute_layout, Layout, Region};
pub use crate::pixmap::{FilterType, Pixmap, Rgb};
pub use crate::render::draw_image;
pub use crate::widget::ImageWidget;
