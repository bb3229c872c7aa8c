//! The server-wide context: the physical displays and the registry of
//! cursor images, one per cursor kind.

use vstd::prelude::*;
use crate::display::Display;
use crate::image::Image;
use crate::{SCREEN_HEIGHT, SCREEN_WIDTH};

verus! {

/// Which image the pointer is drawn with.
#[derive(Clone, Copy, Debug, PartialEq, Eq, Structural)]
pub enum CursorKind {
    /// No visible pointer.
    Hidden,
    /// The ordinary pointer.
    Normal,
    /// Resizing from the bottom-left corner.
    BottomLeftCorner,
    /// Resizing from the bottom-right corner.
    BottomRightCorner,
    /// Resizing from the bottom edge.
    BottomSide,
    /// Resizing from the left edge.
    LeftSide,
    /// Resizing from the right edge.
    RightSide,
}

/// Number of cursor kinds; the registry holds one image per kind.
pub const CURSOR_KIND_COUNT: usize = 7;

/// The position a cursor kind's image has in the registry.
pub open spec fn spec_cursor_index(kind: CursorKind) -> int {
    match kind {
        CursorKind::Hidden => 0,
        CursorKind::Normal => 1,
        CursorKind::BottomLeftCorner => 2,
        CursorKind::BottomRightCorner => 3,
        CursorKind::BottomSide => 4,
        CursorKind::LeftSide => 5,
        CursorKind::RightSide => 6,
    }
}

/// The server-wide context: every physical display and the cursor
/// image registry.
pub struct StarryServer {
    /// The physical outputs.
    pub displays: Vec<Display>,
    /// One cursor image per `CursorKind`, indexed by
    /// `spec_cursor_index`.
    pub cursors: Vec<Image>,
}

impl StarryServer {
    /// Every display is sane and the registry holds one sane image per
    /// cursor kind, none larger than the screen.
    pub open spec fn wf(self) -> bool {
        &&& forall|i: int|
            0 <= i < self.displays@.len() ==> (#[trigger] self.displays@[i]).wf()
        &&& self.cursors@.len() == CURSOR_KIND_COUNT
        &&& forall|i: int|
            0 <= i < self.cursors@.len() ==> {
                &&& (#[trigger] self.cursors@[i]).wf()
                &&& self.cursors@[i].w <= SCREEN_WIDTH as i32
                &&& self.cursors@[i].h <= SCREEN_HEIGHT as i32
            }
    }

    /// The registry image for a cursor kind.
    pub open spec fn spec_cursor_image(self, kind: CursorKind) -> Image {
        self.cursors@[spec_cursor_index(kind)]
    }

    /// Creates the context around a set of displays; every cursor kind
    /// starts with an empty image, so the pointer is invisible until
    /// images are registered.
    pub fn new(displays: Vec<Display>) -> (s: StarryServer)
        requires
            forall|i: int| 0 <= i < displays@.len() ==> (#[trigger] displays@[i]).wf(),
        ensures
            s.wf(),
            s.displays == displays,
            forall|k: CursorKind| s.spec_cursor_image(k).w == 0 && s.spec_cursor_image(k).h == 0,
    {
        let mut cursors: Vec<Image> = Vec::new();
        let mut i: usize = 0;
        while i < CURSOR_KIND_COUNT
            invariant
                i <= CURSOR_KIND_COUNT,
                cursors@.len() == i,
                forall|j: int|
                    0 <= j < i ==> {
                        &&& (#[trigger] cursors@[j]).wf()
                        &&& cursors@[j].w == 0
                        &&& cursors@[j].h == 0
                    },
            decreases CURSOR_KIND_COUNT - i,
        {
            cursors.push(Image::new(0, 0));
            i += 1;
        }
        StarryServer { displays, cursors }
    }

    /// Replaces the image drawn for one cursor kind; the image must
    /// fit on the screen. A wider image can leave the cursor's current
    /// rectangle hanging past a screen edge until the next cursor
    /// update re-clamps the position, so callers that install images
    /// re-apply the cursor afterwards.
    pub fn set_cursor_image(&mut self, kind: CursorKind, image: Image)
        requires
            old(self).wf(),
            image.wf(),
            image.w <= SCREEN_WIDTH as i32,
            image.h <= SCREEN_HEIGHT as i32,
        ensures
            final(self).wf(),
            final(self).displays == old(self).displays,
            final(self).spec_cursor_image(kind) == image,
            forall|k: CursorKind|
                k != kind ==> final(self).spec_cursor_image(k) == old(self).spec_cursor_image(k),
    {
        let idx = Self::cursor_index(kind);
        self.cursors.set(idx, image);
        proof {
            assert forall|k: CursorKind|
                k != kind implies self.spec_cursor_image(k) == old(self).spec_cursor_image(k) by {
                assert(spec_cursor_index(k) != spec_cursor_index(kind));
            }
        }
    }

    /// The image drawn for a cursor kind.
    pub fn cursor_image(&self, kind: CursorKind) -> (r: &Image)
        requires
            self.wf(),
        ensures
            *r == self.spec_cursor_image(kind),
    {
        &self.cursors[Self::cursor_index(kind)]
    }

    /// The position a cursor kind's image has in the registry.
    fn cursor_index(kind: CursorKind) -> (r: usize)
        ensures
            r == spec_cursor_index(kind),
    {
        match kind {
            CursorKind::Hidden => 0,
            CursorKind::Normal => 1,
            CursorKind::BottomLeftCorner => 2,
            CursorKind::BottomRightCorner => 3,
            CursorKind::BottomSide => 4,
            CursorKind::LeftSide => 5,
            CursorKind::RightSide => 6,
        }
    }
}

} // verus!
