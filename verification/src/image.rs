//! Owned pixel surfaces and their two region-merge operators: `blend`
//! (alpha-composite a source region over a destination region) and
//! `cover` (raw overwrite). Regions are addressed by rectangles
//! relative to each surface's own origin.

use vstd::prelude::*;
use vstd::math::{max, min};
use crate::color::{pack_argb, Color};
use crate::rect::{Rect, COORD_MAX};

verus! {

/// How drawing operations combine a new pixel with what is already
/// there.
#[derive(Clone, Copy, Debug, PartialEq, Eq, Structural)]
pub enum RenderMode {
    /// Alpha-composite the new pixel over the old one.
    Blend,
    /// Replace the old pixel outright.
    Overwrite,
}

/// Mathematical view of a surface: its extent and the packed ARGB
/// value of every pixel, row-major.
#[verifier::ext_equal]
pub struct ImageView {
    /// Width in pixels.
    pub w: int,
    /// Height in pixels.
    pub h: int,
    /// Row-major pixel values; length `w * h`.
    pub data: Seq<u32>,
}

/// One channel of the "over" composite as the blend operator computes
/// it: both contributions rounded down separately.
pub open spec fn blend_channel(dst_c: u32, src_c: u32, alpha: u32) -> u32
    recommends
        dst_c < 256,
        src_c < 256,
        0 < alpha < 255,
{
    ((dst_c * (255 - alpha)) / 256 + (src_c * alpha) / 256) as u32
}

/// Alpha-composites one source pixel over one destination pixel.
/// Source alpha 255 replaces the destination outright, source alpha 0
/// leaves it untouched; anything between mixes each colour channel and
/// zeroes the alpha of the result.
pub open spec fn blend_pixel(dst: u32, src: u32) -> u32 {
    let s = Color { data: src };
    let d = Color { data: dst };
    if s.spec_a() >= 255 {
        src
    } else if s.spec_a() == 0 {
        dst
    } else {
        pack_argb(
            0,
            blend_channel(d.spec_r(), s.spec_r(), s.spec_a()),
            blend_channel(d.spec_g(), s.spec_g(), s.spec_a()),
            blend_channel(d.spec_b(), s.spec_b(), s.spec_a()),
        )
    }
}

/// Each mixed channel stays below 256, so the packed result has no
/// carries between channels.
pub proof fn lemma_blend_channel_bound(dst_c: u32, src_c: u32, alpha: u32)
    requires
        dst_c < 256,
        src_c < 256,
        0 < alpha < 255,
    ensures
        blend_channel(dst_c, src_c, alpha) < 255,
{
    assert((dst_c * (255 - alpha)) / 256 + (src_c * alpha) / 256 < 255) by (nonlinear_arith)
        requires
            dst_c < 256 && src_c < 256 && 0 < alpha < 255,
    ;
}

impl ImageView {
    /// Non-negative extent within the coordinate square, with exactly
    /// one pixel value per cell.
    pub open spec fn wf(self) -> bool {
        &&& 0 <= self.w <= COORD_MAX
        &&& 0 <= self.h <= COORD_MAX
        &&& self.w * self.h <= i32::MAX
        &&& self.data.len() == self.w * self.h
    }

    /// The pixel value in column `x` of row `y`.
    pub open spec fn pix(self, x: int, y: int) -> u32
        recommends
            0 <= x < self.w,
            0 <= y < self.h,
    {
        self.data[y * self.w + x]
    }

    /// The rectangle lies inside the surface.
    pub open spec fn rect_in_bounds(self, r: Rect) -> bool {
        &&& 0 <= r.x
        &&& r.x + r.w <= self.w
        &&& 0 <= r.y
        &&& r.y + r.h <= self.h
    }

    /// The surface after merging the region `s` of `src` into the
    /// region `d` of `self`, one pixel at a time through `op`: rows and
    /// columns beyond the shorter of the two regions are left alone.
    pub open spec fn merge_rect(
        self,
        d: Rect,
        src: ImageView,
        s: Rect,
        op: spec_fn(u32, u32) -> u32,
    ) -> ImageView {
        let cw = min(d.w as int, s.w as int);
        let ch = min(d.h as int, s.h as int);
        ImageView {
            w: self.w,
            h: self.h,
            data: Seq::new(
                self.data.len(),
                |i: int|
                    {
                        let x = i % self.w;
                        let y = i / self.w;
                        if d.x <= x < d.x + cw && d.y <= y < d.y + ch {
                            op(self.data[i], src.pix(x - d.x + s.x, y - d.y + s.y))
                        } else {
                            self.data[i]
                        }
                    },
            ),
        }
    }

    /// The surface after alpha-compositing the region `s` of `src`
    /// over the region `d` of `self`.
    pub open spec fn blend_rect(self, d: Rect, src: ImageView, s: Rect) -> ImageView {
        self.merge_rect(d, src, s, |dp: u32, sp: u32| blend_pixel(dp, sp))
    }

    /// The surface after copying the region `s` of `src` onto the
    /// region `d` of `self`, ignoring alpha.
    pub open spec fn cover_rect(self, d: Rect, src: ImageView, s: Rect) -> ImageView {
        self.merge_rect(d, src, s, |dp: u32, sp: u32| sp)
    }
}

/// An owned rectangular pixel surface.
pub struct Image {
    /// Width in pixels; never negative.
    pub w: i32,
    /// Height in pixels; never negative.
    pub h: i32,
    /// Row-major pixel storage; exactly `w * h` entries.
    pub data: Vec<Color>,
    /// How drawing operations combine new pixels with old ones.
    pub mode: RenderMode,
}

impl View for Image {
    type V = ImageView;

    open spec fn view(&self) -> ImageView {
        ImageView {
            w: self.w as int,
            h: self.h as int,
            data: self.data@.map_values(|c: Color| c.data),
        }
    }
}

impl Image {
    /// The extent is sane and the pixel storage matches it.
    pub open spec fn wf(self) -> bool {
        self@.wf()
    }

    /// Builds a surface of the given extent with every pixel set to
    /// one colour.
    pub fn from_color(width: i32, height: i32, color: Color) -> (img: Image)
        requires
            0 <= width <= COORD_MAX,
            0 <= height <= COORD_MAX,
            width * height <= i32::MAX,
        ensures
            img.wf(),
            img.w == width,
            img.h == height,
            img.mode == RenderMode::Blend,
            forall|x: int, y: int|
                0 <= x < width && 0 <= y < height ==> img@.pix(x, y) == color.data,
    {
        proof {
            vstd::arithmetic::mul::lemma_mul_nonnegative(width as int, height as int);
        }
        let n = (width as usize) * (height as usize);
        let mut data: Vec<Color> = Vec::new();
        let mut i: usize = 0;
        while i < n
            invariant
                i <= n,
                data@.len() == i,
                forall|j: int| 0 <= j < i ==> data@[j] == color,
            decreases n - i,
        {
            data.push(color);
            i += 1;
        }
        let img = Image { w: width, h: height, data, mode: RenderMode::Blend };
        proof {
            assert forall|x: int, y: int|
                0 <= x < width && 0 <= y < height implies img@.pix(x, y) == color.data by {
                lemma_row_major_index(width as int, height as int, x, y);
            }
        }
        img
    }

    /// Builds an all-black, fully opaque surface.
    pub fn new(width: i32, height: i32) -> (img: Image)
        requires
            0 <= width <= COORD_MAX,
            0 <= height <= COORD_MAX,
            width * height <= i32::MAX,
        ensures
            img.wf(),
            img.w == width,
            img.h == height,
            img.mode == RenderMode::Blend,
            forall|x: int, y: int|
                0 <= x < width && 0 <= y < height ==> img@.pix(x, y) == pack_argb(255, 0, 0, 0),
    {
        Image::from_color(width, height, Color::rgb(0, 0, 0))
    }

    /// Builds a surface around existing pixel data, which must match
    /// the stated extent.
    pub fn from_data(width: i32, height: i32, data: Vec<Color>) -> (img: Image)
        requires
            0 <= width <= COORD_MAX,
            0 <= height <= COORD_MAX,
            width * height <= i32::MAX,
            data@.len() == width * height,
        ensures
            img.wf(),
            img.w == width,
            img.h == height,
            img.mode == RenderMode::Blend,
            img@.data == data@.map_values(|c: Color| c.data),
    {
        Image { w: width, h: height, data, mode: RenderMode::Blend }
    }

    /// Width of the surface.
    pub fn width(&self) -> (r: i32)
        ensures
            r == self.w,
    {
        self.w
    }

    /// Height of the surface.
    pub fn height(&self) -> (r: i32)
        ensures
            r == self.h,
    {
        self.h
    }

    /// Width and height of the surface.
    pub fn dimensions(&self) -> (r: (i32, i32))
        ensures
            r.0 == self.w,
            r.1 == self.h,
    {
        (self.w, self.h)
    }

    /// An independent copy of the surface with the same pixels.
    pub fn duplicate(&self) -> (r: Image)
        ensures
            r.w == self.w,
            r.h == self.h,
            r.mode == self.mode,
            r@ == self@,
            r.data@ == self.data@,
    {
        let mut data: Vec<Color> = Vec::new();
        let mut i: usize = 0;
        while i < self.data.len()
            invariant
                i <= self.data@.len(),
                data@ == self.data@.take(i as int),
            decreases self.data@.len() - i,
        {
            data.push(self.data[i]);
            proof {
                assert(data@ =~= self.data@.take(i as int + 1));
            }
            i += 1;
        }
        proof {
            assert(self.data@.take(self.data@.len() as int) =~= self.data@);
        }
        let r = Image { w: self.w, h: self.h, data, mode: self.mode };
        proof {
            assert(r@ =~= self@);
        }
        r
    }

    /// The pixel at `(x, y)`, addressed row-major exactly as stored:
    /// out-of-storage addresses give opaque black instead of failing.
    pub fn get_pixel(&self, x: i32, y: i32) -> (r: Color)
        requires
            self.wf(),
        ensures
            r.data == if 0 <= y * self.w + x < self@.data.len() {
                self@.data[y * self.w + x]
            } else {
                pack_argb(255, 0, 0, 0)
            },
    {
        proof {
            assert(-0x2000_0000_0000_0000 <= (y as int) * (self.w as int)
                <= 0x2000_0000_0000_0000) by (nonlinear_arith)
                requires
                    0 <= self.w <= 0x4000_0000 && -0x8000_0000 <= y <= 0x8000_0000,
            ;
        }
        let idx = (y as i64) * (self.w as i64) + (x as i64);
        if idx >= 0 && idx < self.data.len() as i64 {
            self.data[idx as usize]
        } else {
            Color::rgb(0, 0, 0)
        }
    }

    /// Alpha-composites the region `src_rect` of `src` over the region
    /// `dst_rect` of this surface; rows and columns beyond the shorter
    /// region are left alone.
    pub fn blend(&mut self, dst_rect: &Rect, src: &Image, src_rect: &Rect)
        requires
            old(self).wf(),
            src.wf(),
            dst_rect.wf(),
            src_rect.wf(),
            old(self)@.rect_in_bounds(*dst_rect),
            src@.rect_in_bounds(*src_rect),
        ensures
            final(self).w == old(self).w,
            final(self).h == old(self).h,
            final(self).mode == old(self).mode,
            final(self).wf(),
            final(self)@ == old(self)@.blend_rect(*dst_rect, src@, *src_rect),
    {
        let ghost target = old(self)@.blend_rect(*dst_rect, src@, *src_rect);
        let cw = if dst_rect.w < src_rect.w {
            dst_rect.w
        } else {
            src_rect.w
        };
        let ch = if dst_rect.h < src_rect.h {
            dst_rect.h
        } else {
            src_rect.h
        };
        let mut row: i32 = 0;
        while row < ch
            invariant
                0 <= row <= ch,
                cw == min(dst_rect.w as int, src_rect.w as int),
                ch == min(dst_rect.h as int, src_rect.h as int),
                self.w == old(self).w,
                self.h == old(self).h,
                self.mode == old(self).mode,
                self.data@.len() == old(self).data@.len(),
                old(self).wf(),
                src.wf(),
                dst_rect.wf(),
                src_rect.wf(),
                old(self)@.rect_in_bounds(*dst_rect),
                src@.rect_in_bounds(*src_rect),
                target == old(self)@.blend_rect(*dst_rect, src@, *src_rect),
                forall|px: int, py: int|
                    0 <= px < self.w && 0 <= py < self.h ==> #[trigger] self@.pix(px, py) == (
                    if dst_rect.x <= px < dst_rect.x + cw && dst_rect.y <= py < dst_rect.y
                        + row {
                        target.pix(px, py)
                    } else {
                        old(self)@.pix(px, py)
                    }),
            decreases ch - row,
        {
            let mut col: i32 = 0;
            while col < cw
                invariant
                    0 <= col <= cw,
                    0 <= row < ch,
                    cw == min(dst_rect.w as int, src_rect.w as int),
                    ch == min(dst_rect.h as int, src_rect.h as int),
                    self.w == old(self).w,
                    self.h == old(self).h,
                    self.mode == old(self).mode,
                    self.data@.len() == old(self).data@.len(),
                    old(self).wf(),
                    src.wf(),
                    dst_rect.wf(),
                    src_rect.wf(),
                    old(self)@.rect_in_bounds(*dst_rect),
                    src@.rect_in_bounds(*src_rect),
                    target == old(self)@.blend_rect(*dst_rect, src@, *src_rect),
                    forall|px: int, py: int|
                        0 <= px < self.w && 0 <= py < self.h ==> #[trigger] self@.pix(px, py) == (
                        if (dst_rect.x <= px < dst_rect.x + cw && dst_rect.y <= py < dst_rect.y
                            + row) || (py == dst_rect.y + row && dst_rect.x <= px < dst_rect.x
                            + col) {
                            target.pix(px, py)
                        } else {
                            old(self)@.pix(px, py)
                        }),
                decreases cw - col,
            {
                let dx = dst_rect.x + col;
                let dy = dst_rect.y + row;
                let sx = src_rect.x + col;
                let sy = src_rect.y + row;
                proof {
                    lemma_row_major_index(self.w as int, self.h as int, dx as int, dy as int);
                    lemma_row_major_index(src.w as int, src.h as int, sx as int, sy as int);
                }
                let di = (dy as usize) * (self.w as usize) + (dx as usize);
                let si = (sy as usize) * (src.w as usize) + (sx as usize);
                let ghost before = self@;
                let d = self.data[di].data;
                let s = src.data[si].data;
                let v = blend_pixel_exec(d, s);
                self.data.set(di, Color { data: v });
                proof {
                    lemma_blend_rect_pix(old(self)@, *dst_rect, src@, *src_rect, dx as int,
                        dy as int);
                    assert(before.pix(dx as int, dy as int) == d);
                    assert(src@.pix(sx as int, sy as int) == s);
                    assert forall|px: int, py: int|
                        0 <= px < self.w && 0 <= py < self.h implies #[trigger] self@.pix(px, py)
                        == (if (dst_rect.x <= px < dst_rect.x + cw && dst_rect.y <= py < dst_rect.y
                        + row) || (py == dst_rect.y + row && dst_rect.x <= px < dst_rect.x + col
                        + 1) {
                        target.pix(px, py)
                    } else {
                        old(self)@.pix(px, py)
                    }) by {
                        if px == dx as int && py == dy as int {
                            assert(self@.pix(px, py) == v);
                        } else {
                            lemma_row_major_index(self.w as int, self.h as int, px, py);
                            lemma_row_major_distinct(self.w as int, px, py, dx as int, dy as int);
                            assert(self@.pix(px, py) == before.pix(px, py));
                        }
                    }
                }
                col += 1;
            }
            row += 1;
        }
        proof {
            lemma_merge_complete(old(self)@, *dst_rect, src@, *src_rect, self@, target,
                true);
        }
    }

    /// Copies the region `src_rect` of `src` onto the region
    /// `dst_rect` of this surface, ignoring alpha; rows and columns
    /// beyond the shorter region are left alone.
    pub fn cover(&mut self, dst_rect: &Rect, src: &Image, src_rect: &Rect)
        requires
            old(self).wf(),
            src.wf(),
            dst_rect.wf(),
            src_rect.wf(),
            old(self)@.rect_in_bounds(*dst_rect),
            src@.rect_in_bounds(*src_rect),
        ensures
            final(self).w == old(self).w,
            final(self).h == old(self).h,
            final(self).mode == old(self).mode,
            final(self).wf(),
            final(self)@ == old(self)@.cover_rect(*dst_rect, src@, *src_rect),
    {
        let ghost target = old(self)@.cover_rect(*dst_rect, src@, *src_rect);
        let cw = if dst_rect.w < src_rect.w {
            dst_rect.w
        } else {
            src_rect.w
        };
        let ch = if dst_rect.h < src_rect.h {
            dst_rect.h
        } else {
            src_rect.h
        };
        let mut row: i32 = 0;
        while row < ch
            invariant
                0 <= row <= ch,
                cw == min(dst_rect.w as int, src_rect.w as int),
                ch == min(dst_rect.h as int, src_rect.h as int),
                self.w == old(self).w,
                self.h == old(self).h,
                self.mode == old(self).mode,
                self.data@.len() == old(self).data@.len(),
                old(self).wf(),
                src.wf(),
                dst_rect.wf(),
                src_rect.wf(),
                old(self)@.rect_in_bounds(*dst_rect),
                src@.rect_in_bounds(*src_rect),
                target == old(self)@.cover_rect(*dst_rect, src@, *src_rect),
                forall|px: int, py: int|
                    0 <= px < self.w && 0 <= py < self.h ==> #[trigger] self@.pix(px, py) == (
                    if dst_rect.x <= px < dst_rect.x + cw && dst_rect.y <= py < dst_rect.y
                        + row {
                        target.pix(px, py)
                    } else {
                        old(self)@.pix(px, py)
                    }),
            decreases ch - row,
        {
            let mut col: i32 = 0;
            while col < cw
                invariant
                    0 <= col <= cw,
                    0 <= row < ch,
                    cw == min(dst_rect.w as int, src_rect.w as int),
                    ch == min(dst_rect.h as int, src_rect.h as int),
                    self.w == old(self).w,
                    self.h == old(self).h,
                    self.mode == old(self).mode,
                    self.data@.len() == old(self).data@.len(),
                    old(self).wf(),
                    src.wf(),
                    dst_rect.wf(),
                    src_rect.wf(),
                    old(self)@.rect_in_bounds(*dst_rect),
                    src@.rect_in_bounds(*src_rect),
                    target == old(self)@.cover_rect(*dst_rect, src@, *src_rect),
                    forall|px: int, py: int|
                        0 <= px < self.w && 0 <= py < self.h ==> #[trigger] self@.pix(px, py) == (
                        if (dst_rect.x <= px < dst_rect.x + cw && dst_rect.y <= py < dst_rect.y
                            + row) || (py == dst_rect.y + row && dst_rect.x <= px < dst_rect.x
                            + col) {
                            target.pix(px, py)
                        } else {
                            old(self)@.pix(px, py)
                        }),
                decreases cw - col,
            {
                let dx = dst_rect.x + col;
                let dy = dst_rect.y + row;
                let sx = src_rect.x + col;
                let sy = src_rect.y + row;
                proof {
                    lemma_row_major_index(self.w as int, self.h as int, dx as int, dy as int);
                    lemma_row_major_index(src.w as int, src.h as int, sx as int, sy as int);
                }
                let di = (dy as usize) * (self.w as usize) + (dx as usize);
                let si = (sy as usize) * (src.w as usize) + (sx as usize);
                let ghost before = self@;
                let s = src.data[si];
                self.data.set(di, s);
                proof {
                    lemma_cover_rect_pix(old(self)@, *dst_rect, src@, *src_rect, dx as int,
                        dy as int);
                    assert(src@.pix(sx as int, sy as int) == s.data);
                    assert forall|px: int, py: int|
                        0 <= px < self.w && 0 <= py < self.h implies #[trigger] self@.pix(px, py)
                        == (if (dst_rect.x <= px < dst_rect.x + cw && dst_rect.y <= py < dst_rect.y
                        + row) || (py == dst_rect.y + row && dst_rect.x <= px < dst_rect.x + col
                        + 1) {
                        target.pix(px, py)
                    } else {
                        old(self)@.pix(px, py)
                    }) by {
                        if px == dx as int && py == dy as int {
                            assert(self@.pix(px, py) == s.data);
                        } else {
                            lemma_row_major_index(self.w as int, self.h as int, px, py);
                            lemma_row_major_distinct(self.w as int, px, py, dx as int, dy as int);
                            assert(self@.pix(px, py) == before.pix(px, py));
                        }
                    }
                }
                col += 1;
            }
            row += 1;
        }
        proof {
            lemma_merge_complete(old(self)@, *dst_rect, src@, *src_rect, self@, target,
                false);
        }
    }
}

/// Evaluates one pixel of a blended surface: inside the copied region
/// it is the blend of the two operands, elsewhere it is unchanged.
pub proof fn lemma_blend_rect_pix(img: ImageView, d: Rect, src: ImageView, s: Rect, px: int,
    py: int)
    requires
        img.wf(),
        0 <= px < img.w,
        0 <= py < img.h,
    ensures
        img.blend_rect(d, src, s).pix(px, py) == (if d.x <= px < d.x + min(d.w as int, s.w as int)
            && d.y <= py < d.y + min(d.h as int, s.h as int) {
            blend_pixel(img.pix(px, py), src.pix(px - d.x + s.x, py - d.y + s.y))
        } else {
            img.pix(px, py)
        }),
        img.blend_rect(d, src, s).w == img.w,
        img.blend_rect(d, src, s).h == img.h,
        img.blend_rect(d, src, s).data.len() == img.data.len(),
{
    lemma_row_major_index(img.w, img.h, px, py);
    lemma_row_major_coords(img.w, px, py);
}

/// Evaluates one pixel of a covered surface: inside the copied region
/// it is the source pixel, elsewhere it is unchanged.
pub proof fn lemma_cover_rect_pix(img: ImageView, d: Rect, src: ImageView, s: Rect, px: int,
    py: int)
    requires
        img.wf(),
        0 <= px < img.w,
        0 <= py < img.h,
    ensures
        img.cover_rect(d, src, s).pix(px, py) == (if d.x <= px < d.x + min(d.w as int, s.w as int)
            && d.y <= py < d.y + min(d.h as int, s.h as int) {
            src.pix(px - d.x + s.x, py - d.y + s.y)
        } else {
            img.pix(px, py)
        }),
        img.cover_rect(d, src, s).w == img.w,
        img.cover_rect(d, src, s).h == img.h,
        img.cover_rect(d, src, s).data.len() == img.data.len(),
{
    lemma_row_major_index(img.w, img.h, px, py);
    lemma_row_major_coords(img.w, px, py);
}

/// A surface that agrees with a merged surface on every pixel cell is
/// that merged surface.
proof fn lemma_merge_complete(img: ImageView, d: Rect, src: ImageView, s: Rect, got: ImageView,
    target: ImageView, blending: bool)
    requires
        img.wf(),
        got.w == img.w,
        got.h == img.h,
        got.data.len() == img.data.len(),
        target == if blending {
            img.blend_rect(d, src, s)
        } else {
            img.cover_rect(d, src, s)
        },
        forall|px: int, py: int|
            0 <= px < img.w && 0 <= py < img.h ==> #[trigger] got.pix(px, py) == (if d.x <= px
                < d.x + min(d.w as int, s.w as int) && d.y <= py < d.y + min(
                d.h as int,
                s.h as int,
            ) {
                target.pix(px, py)
            } else {
                img.pix(px, py)
            }),
    ensures
        got == target,
{
    assert(target.data.len() == img.data.len());
    assert forall|i: int| 0 <= i < got.data.len() implies got.data[i] == target.data[i] by {
        let w = img.w;
        assert(w * img.h > 0);
        assert(0 < w && 0 < img.h) by (nonlinear_arith)
            requires
                0 <= w && 0 <= img.h && w * img.h > 0,
        ;
        vstd::arithmetic::div_mod::lemma_fundamental_div_mod(i, w);
        vstd::arithmetic::div_mod::lemma_mod_bound(i, w);
        let px = i % w;
        let py = i / w;
        assert(py < img.h) by (nonlinear_arith)
            requires
                0 < w && 0 <= i < w * img.h && py == i / w,
        ;
        assert(0 <= py) by (nonlinear_arith)
            requires
                0 < w && 0 <= i && py == i / w,
        ;
        assert(i == py * w + px);
        if blending {
            lemma_blend_rect_pix(img, d, src, s, px, py);
        } else {
            lemma_cover_rect_pix(img, d, src, s, px, py);
        }
        assert(got.pix(px, py) == target.pix(px, py));
    }
    assert(got.data =~= target.data);
    assert(got =~= target);
}

/// Two surfaces of the same sane extent that agree on every pixel cell
/// are equal.
pub proof fn lemma_pix_complete(a: ImageView, b: ImageView)
    requires
        a.w == b.w,
        a.h == b.h,
        a.data.len() == b.data.len(),
        a.data.len() == a.w * a.h,
        0 <= a.w,
        0 <= a.h,
        forall|px: int, py: int|
            0 <= px < a.w && 0 <= py < a.h ==> #[trigger] a.pix(px, py) == b.pix(px, py),
    ensures
        a == b,
{
    assert forall|i: int| 0 <= i < a.data.len() implies a.data[i] == b.data[i] by {
        let w = a.w;
        assert(w * a.h > 0);
        assert(0 < w && 0 < a.h) by (nonlinear_arith)
            requires
                0 <= w && 0 <= a.h && w * a.h > 0,
        ;
        vstd::arithmetic::div_mod::lemma_fundamental_div_mod(i, w);
        vstd::arithmetic::div_mod::lemma_mod_bound(i, w);
        let px = i % w;
        let py = i / w;
        assert(py < a.h) by (nonlinear_arith)
            requires
                0 < w && 0 <= i < w * a.h && py == i / w,
        ;
        assert(0 <= py) by (nonlinear_arith)
            requires
                0 < w && 0 <= i && py == i / w,
        ;
        assert(i == py * w + px);
        assert(a.pix(px, py) == b.pix(px, py));
    }
    assert(a.data =~= b.data);
    assert(a =~= b);
}

/// Two distinct coordinate pairs in the same row-major layout address
/// distinct storage cells.
pub proof fn lemma_row_major_distinct(w: int, x1: int, y1: int, x2: int, y2: int)
    requires
        0 <= x1 < w,
        0 <= x2 < w,
        0 <= y1,
        0 <= y2,
        !(x1 == x2 && y1 == y2),
    ensures
        y1 * w + x1 != y2 * w + x2,
{
    lemma_row_major_coords(w, x1, y1);
    lemma_row_major_coords(w, x2, y2);
}

/// A fully opaque source pixel replaces the destination exactly.
pub proof fn lemma_blend_alpha_full(dst: u32, src: u32)
    requires
        (Color { data: src }).spec_a() == 255,
    ensures
        blend_pixel(dst, src) == src,
{
}

/// A fully transparent source pixel leaves the destination unchanged.
pub proof fn lemma_blend_alpha_zero(dst: u32, src: u32)
    requires
        (Color { data: src }).spec_a() == 0,
    ensures
        blend_pixel(dst, src) == dst,
{
}

/// Row-major addressing: a coordinate pair inside the extent gives an
/// index inside the storage.
pub proof fn lemma_row_major_index(w: int, h: int, x: int, y: int)
    requires
        0 <= x < w,
        0 <= y < h,
    ensures
        0 <= y * w + x < w * h,
{
    assert(0 <= y * w + x < w * h) by (nonlinear_arith)
        requires
            0 <= x < w && 0 <= y < h,
    ;
}

/// Row-major addressing is invertible: dividing an index by the width
/// recovers the row, the remainder recovers the column.
pub proof fn lemma_row_major_coords(w: int, x: int, y: int)
    requires
        0 <= x < w,
        0 <= y,
    ensures
        (y * w + x) / w == y,
        (y * w + x) % w == x,
{
    assert((y * w + x) / w == y && (y * w + x) % w == x) by (nonlinear_arith)
        requires
            0 <= x < w && 0 <= y,
    ;
}

/// Row-major addressing is injective: an index whose quotient and
/// remainder by the width are known is determined by them.
pub proof fn lemma_row_major_unique(w: int, i: int, x: int, y: int)
    requires
        0 < w,
        0 <= i,
        i / w == y,
        i % w == x,
    ensures
        i == y * w + x,
{
    vstd::arithmetic::div_mod::lemma_fundamental_div_mod(i, w);
}

/// Alpha-composites one source pixel over one destination pixel.
fn blend_pixel_exec(d: u32, s: u32) -> (r: u32)
    ensures
        r == blend_pixel(d, s),
{
    let a = s / 0x100_0000;
    if a >= 255 {
        s
    } else if a == 0 {
        d
    } else {
        let dr = (d / 0x1_0000) % 0x100;
        let dg = (d / 0x100) % 0x100;
        let db = d % 0x100;
        let sr = (s / 0x1_0000) % 0x100;
        let sg = (s / 0x100) % 0x100;
        let sb = s % 0x100;
        let rr = scale_channel(dr, 255 - a) + scale_channel(sr, a);
        let rg = scale_channel(dg, 255 - a) + scale_channel(sg, a);
        let rb = scale_channel(db, 255 - a) + scale_channel(sb, a);
        proof {
            lemma_blend_channel_bound(dr, sr, a);
            lemma_blend_channel_bound(dg, sg, a);
            lemma_blend_channel_bound(db, sb, a);
        }
        rr * 0x1_0000 + rg * 0x100 + rb
    }
}

/// One rounded-down channel contribution of the blend.
fn scale_channel(c: u32, f: u32) -> (r: u32)
    requires
        c < 256,
        f < 256,
    ensures
        r == (c * f) / 256,
        r < 256,
{
    proof {
        assert(c * f < 0x1_0000) by (nonlinear_arith)
            requires
                c < 256 && f < 256,
        ;
    }
    (c * f) / 256
}

} // verus!
