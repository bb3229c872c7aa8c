//! One physical output: an origin on the shared screen plane and the
//! surface that acts as its back buffer.

use vstd::prelude::*;
use crate::color::Color;
use crate::image::Image;
use crate::rect::{Rect, COORD_MAX};
use crate::renderer::{spec_clip_hi, spec_clip_lo, spec_fill_region};

verus! {

/// A physical output target: its origin in screen coordinates and its
/// back-buffer surface.
pub struct Display {
    /// x coordinate of the output's top-left corner on the screen.
    pub x: i32,
    /// y coordinate of the output's top-left corner on the screen.
    pub y: i32,
    /// The back buffer, one pixel per cell of the output.
    pub image: Image,
}

impl Display {
    /// The back buffer is sane and the output's screen region lies in
    /// the coordinate square.
    pub open spec fn wf(self) -> bool {
        &&& self.image.wf()
        &&& self.spec_screen_rect().wf()
    }

    /// The screen region the output covers.
    pub open spec fn spec_screen_rect(self) -> Rect {
        Rect { x: self.x, y: self.y, w: self.image.w, h: self.image.h }
    }

    /// Creates an output of the given extent with a black back buffer.
    pub fn new(x: i32, y: i32, width: i32, height: i32) -> (d: Display)
        requires
            0 <= width <= COORD_MAX,
            0 <= height <= COORD_MAX,
            width * height <= i32::MAX,
            -COORD_MAX <= x,
            x + width <= COORD_MAX,
            -COORD_MAX <= y,
            y + height <= COORD_MAX,
        ensures
            d.wf(),
            d.x == x,
            d.y == y,
            d.image.w == width,
            d.image.h == height,
            forall|px: int, py: int|
                0 <= px < width && 0 <= py < height ==> d.image@.pix(px, py)
                    == crate::color::pack_argb(255, 0, 0, 0),
    {
        Display { x, y, image: Image::new(width, height) }
    }

    /// Replaces the back buffer with a fresh black one of the given
    /// extent.
    pub fn resize(&mut self, width: i32, height: i32)
        requires
            0 <= width <= COORD_MAX,
            0 <= height <= COORD_MAX,
            width * height <= i32::MAX,
            -COORD_MAX <= old(self).x,
            old(self).x + width <= COORD_MAX,
            -COORD_MAX <= old(self).y,
            old(self).y + height <= COORD_MAX,
        ensures
            final(self).wf(),
            final(self).x == old(self).x,
            final(self).y == old(self).y,
            final(self).image.w == width,
            final(self).image.h == height,
            forall|px: int, py: int|
                0 <= px < width && 0 <= py < height ==> final(self).image@.pix(px, py)
                    == crate::color::pack_argb(255, 0, 0, 0),
    {
        self.image = Image::new(width, height);
    }

    /// Fills a screen-coordinate region of the back buffer with one
    /// colour, clipped against the output.
    pub fn rect(&mut self, rect: &Rect, color: Color)
        requires
            old(self).wf(),
            rect.wf(),
        ensures
            final(self).x == old(self).x,
            final(self).y == old(self).y,
            final(self).image.w == old(self).image.w,
            final(self).image.h == old(self).image.h,
            final(self).wf(),
            final(self).image@ == spec_fill_region(
                old(self).image@,
                old(self).image.mode,
                spec_clip_lo(old(self).image@.w, rect.x - old(self).x),
                spec_clip_hi(
                    spec_clip_lo(old(self).image@.w, rect.x - old(self).x),
                    old(self).image@.w,
                    rect.x - old(self).x + rect.w,
                ),
                spec_clip_lo(old(self).image@.h, rect.y - old(self).y),
                spec_clip_hi(
                    spec_clip_lo(old(self).image@.h, rect.y - old(self).y),
                    old(self).image@.h,
                    rect.y - old(self).y + rect.h,
                ),
                color.data,
            ),
    {
        let lx = rect.left() - self.x;
        let ly = rect.top() - self.y;
        self.image.rect(lx, ly, rect.width() as u32, rect.height() as u32, color);
    }

    /// The screen region the output covers.
    pub fn screen_rect(&self) -> (r: Rect)
        requires
            self.wf(),
        ensures
            r == self.spec_screen_rect(),
    {
        Rect::new(self.x, self.y, self.image.width(), self.image.height())
    }
}

} // verus!
