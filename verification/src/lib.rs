//! Core of a software display compositor and window manager: rectangle
//! algebra, pixel surfaces with alpha blending, windows with stacking
//! classes, a window manager that derives the paint order, and a
//! compositor that merges damage regions and composites them into the
//! displays' back buffers.
//!
//! Input polling and the flush of composited pixels to the physical
//! framebuffer are left to the embedding application, which hands this
//! library plain events and reads back the composited surfaces.

use vstd::prelude::*;

pub mod color;
pub mod compositor;
pub mod config;
pub mod display;
pub mod event;
pub mod geometry;
pub mod graphicspath;
pub mod image;
pub mod rect;
pub mod renderer;
pub mod server;
pub mod window;
pub mod window_manager;

verus! {

/// Width of the physical screen, in pixels.
pub const SCREEN_WIDTH: usize = 1440;

/// Height of the physical screen, in pixels.
pub const SCREEN_HEIGHT: usize = 900;

} // verus!
