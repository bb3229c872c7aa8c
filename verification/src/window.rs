//! Windows: one client surface each, with a position, a stacking
//! class, a transparency flag and a queue of pending events; and the
//! operation that composites a window into a display's back buffer.

use vstd::prelude::*;
use crate::display::Display;
use crate::event::Event;
use crate::image::{Image, ImageView};
use crate::rect::{Rect, COORD_MAX};

verus! {

/// The stacking class of a window: `Back` windows paint first, `Front`
/// windows last.
#[derive(Clone, Copy, Debug, PartialEq, Eq, Structural)]
pub enum WindowZOrderMode {
    /// Painted below every other class.
    Back,
    /// The ordinary middle class.
    Normal,
    /// Painted above every other class.
    Front,
}

/// One client window.
pub struct Window {
    /// The identifier the window manager assigned at creation.
    pub id: usize,
    /// x coordinate of the window's top-left corner on the screen.
    pub x: i32,
    /// y coordinate of the window's top-left corner on the screen.
    pub y: i32,
    /// Scale factor for the window's contents.
    pub scale: i32,
    /// The window title.
    pub title: String,
    /// Whether compositing blends the window over what is below it
    /// instead of overwriting.
    pub transparent: bool,
    /// The stacking class.
    pub zorder: WindowZOrderMode,
    /// The window's own surface.
    pub image: Image,
    /// Events queued for the window.
    pub events: Vec<Event>,
}

impl Window {
    /// The surface is sane and the window's screen region lies in the
    /// coordinate square.
    pub open spec fn wf(self) -> bool {
        &&& self.image.wf()
        &&& self.spec_rect().wf()
    }

    /// The screen region the window covers, derived from its position
    /// and its surface's extent.
    pub open spec fn spec_rect(self) -> Rect {
        Rect { x: self.x, y: self.y, w: self.image.w, h: self.image.h }
    }

    /// Creates a window at a position with a given surface; the title
    /// starts empty and no events are pending.
    pub fn new(
        id: usize,
        x: i32,
        y: i32,
        scale: i32,
        zorder: WindowZOrderMode,
        transparent: bool,
        image: Image,
    ) -> (w: Window)
        requires
            image.wf(),
            -COORD_MAX <= x,
            x + image.w <= COORD_MAX,
            -COORD_MAX <= y,
            y + image.h <= COORD_MAX,
        ensures
            w.wf(),
            w.id == id,
            w.x == x,
            w.y == y,
            w.scale == scale,
            w.zorder == zorder,
            w.transparent == transparent,
            w.image == image,
            w.title@ == Seq::<char>::empty(),
            w.events@ == Seq::<Event>::empty(),
    {
        let win = Window {
            id,
            x,
            y,
            scale,
            title: String::new(),
            transparent,
            zorder,
            image,
            events: Vec::new(),
        };
        proof {
            assert(win.title@ =~= Seq::<char>::empty());
            assert(win.events@ =~= Seq::<Event>::empty());
        }
        win
    }

    /// Width of the window's surface.
    pub fn width(&self) -> (r: i32)
        ensures
            r == self.image.w,
    {
        self.image.width()
    }

    /// Height of the window's surface.
    pub fn height(&self) -> (r: i32)
        ensures
            r == self.image.h,
    {
        self.image.height()
    }

    /// The screen region the window covers.
    pub fn rect(&self) -> (r: Rect)
        requires
            self.wf(),
        ensures
            r == self.spec_rect(),
    {
        Rect::new(self.x, self.y, self.width(), self.height())
    }

    /// A display's back buffer after this window is composited into
    /// it, restricted to the screen region `rect`: the part of `rect`
    /// the window covers is blended or overwritten; everything else is
    /// untouched.
    pub open spec fn spec_draw(self, img: ImageView, dx: int, dy: int, rect: Rect) -> ImageView {
        let inter = self.spec_rect().spec_intersection(rect);
        if !inter.spec_is_empty() {
            if self.transparent {
                img.blend_rect(
                    inter.spec_offset(-dx, -dy),
                    self.image@,
                    inter.spec_offset(-self.x as int, -self.y as int),
                )
            } else {
                img.cover_rect(
                    inter.spec_offset(-dx, -dy),
                    self.image@,
                    inter.spec_offset(-self.x as int, -self.y as int),
                )
            }
        } else {
            img
        }
    }

    /// Composites this window into `display`'s back buffer, restricted
    /// to the screen region `rect`, which must lie on the display. A
    /// transparent window is blended over what is there; an opaque one
    /// overwrites it.
    pub fn draw(&self, display: &mut Display, rect: &Rect)
        requires
            self.wf(),
            old(display).wf(),
            rect.wf(),
            old(display).spec_screen_rect().spec_contains_rect(*rect),
        ensures
            final(display).x == old(display).x,
            final(display).y == old(display).y,
            final(display).image.w == old(display).image.w,
            final(display).image.h == old(display).image.h,
            final(display).wf(),
            final(display).image@ == self.spec_draw(
                old(display).image@,
                old(display).x as int,
                old(display).y as int,
                *rect,
            ),
    {
        let self_rect = self.rect();
        let intersect = self_rect.intersection(rect);
        if !intersect.is_empty() {
            let dst_rect = intersect.offset(-display.x, -display.y);
            let src_rect = intersect.offset(-self_rect.left(), -self_rect.top());
            if self.transparent {
                display.image.blend(&dst_rect, &self.image, &src_rect);
            } else {
                display.image.cover(&dst_rect, &self.image, &src_rect);
            }
        }
    }
}

} // verus!
