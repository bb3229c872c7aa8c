//! Direct drawing on a surface: single pixels, filled rectangles,
//! whole-surface fills, and raster blits of whole images, each clipped
//! against the destination surface instead of failing. Blits and
//! pixels composite with the full "over" operator, which carries the
//! alpha channel through.

use vstd::prelude::*;
use vstd::math::{max, min};
use crate::color::{pack_argb, Color};
use crate::image::{lemma_row_major_coords, lemma_row_major_distinct, lemma_row_major_index, Image,
    ImageView, RenderMode};

verus! {

/// One channel of the full "over" composite: both contributions summed
/// before rounding once.
pub open spec fn over_channel(dst_c: u32, src_c: u32, alpha: u32) -> u32
    recommends
        dst_c < 256,
        src_c < 256,
        0 < alpha < 255,
{
    ((dst_c * (255 - alpha) + src_c * alpha) / 256) as u32
}

/// The alpha of the full "over" composite: the source alpha plus what
/// the destination alpha keeps of the remainder.
pub open spec fn over_alpha(dst_a: u32, alpha: u32) -> u32
    recommends
        dst_a < 256,
        0 < alpha < 255,
{
    (alpha + (dst_a * (255 - alpha)) / 256) as u32
}

/// The full "over" composite of one source pixel on one destination
/// pixel: source alpha 255 replaces the destination, source alpha 0
/// leaves it untouched; anything between mixes every channel, alpha
/// included.
pub open spec fn over_pixel(dst: u32, src: u32) -> u32 {
    let s = Color { data: src };
    let d = Color { data: dst };
    if s.spec_a() >= 255 {
        src
    } else if s.spec_a() == 0 {
        dst
    } else {
        pack_argb(
            over_alpha(d.spec_a(), s.spec_a()),
            over_channel(d.spec_r(), s.spec_r(), s.spec_a()),
            over_channel(d.spec_g(), s.spec_g(), s.spec_a()),
            over_channel(d.spec_b(), s.spec_b(), s.spec_a()),
        )
    }
}

/// Every channel of the full "over" composite stays a byte, so the
/// packed result has no carries between channels.
pub proof fn lemma_over_bounds(dst_c: u32, dst_a: u32, src_c: u32, alpha: u32)
    requires
        dst_c < 256,
        dst_a < 256,
        src_c < 256,
        0 < alpha < 255,
    ensures
        over_channel(dst_c, src_c, alpha) < 256,
        over_alpha(dst_a, alpha) < 256,
{
    assert((dst_c * (255 - alpha) + src_c * alpha) / 256 < 256) by (nonlinear_arith)
        requires
            dst_c < 256 && src_c < 256 && 0 < alpha < 255,
    ;
    assert(alpha + (dst_a * (255 - alpha)) / 256 < 256) by (nonlinear_arith)
        requires
            dst_a < 256 && 0 < alpha < 255,
    ;
}

/// The full "over" composite of one source pixel on one destination
/// pixel.
fn over_pixel_exec(d: u32, s: u32) -> (r: u32)
    ensures
        r == over_pixel(d, s),
{
    let a = s / 0x100_0000;
    if a >= 255 {
        s
    } else if a == 0 {
        d
    } else {
        let da = d / 0x100_0000;
        let dr = (d / 0x1_0000) % 0x100;
        let dg = (d / 0x100) % 0x100;
        let db = d % 0x100;
        let sr = (s / 0x1_0000) % 0x100;
        let sg = (s / 0x100) % 0x100;
        let sb = s % 0x100;
        proof {
            lemma_over_bounds(dr, da, sr, a);
            lemma_over_bounds(dg, da, sg, a);
            lemma_over_bounds(db, da, sb, a);
            assert(dr * (255 - a) + sr * a < 0x2_0000) by (nonlinear_arith)
                requires
                    dr < 256 && sr < 256 && 0 < a < 255,
            ;
            assert(dg * (255 - a) + sg * a < 0x2_0000) by (nonlinear_arith)
                requires
                    dg < 256 && sg < 256 && 0 < a < 255,
            ;
            assert(db * (255 - a) + sb * a < 0x2_0000) by (nonlinear_arith)
                requires
                    db < 256 && sb < 256 && 0 < a < 255,
            ;
            assert(da * (255 - a) < 0x1_0000) by (nonlinear_arith)
                requires
                    da < 256 && a < 255,
            ;
        }
        let ra = a + (da * (255 - a)) / 256;
        let rr = (dr * (255 - a) + sr * a) / 256;
        let rg = (dg * (255 - a) + sg * a) / 256;
        let rb = (db * (255 - a) + sb * a) / 256;
        ra * 0x100_0000 + rr * 0x1_0000 + rg * 0x100 + rb
    }
}

/// A surface after one pixel is drawn: inside the extent the cell is
/// replaced outright in overwrite mode and "over"-composited in blend
/// mode; outside the extent nothing happens.
pub open spec fn spec_pixel_at(img: ImageView, mode: RenderMode, x: int, y: int, c: u32) -> ImageView {
    if 0 <= x < img.w && 0 <= y < img.h {
        ImageView {
            w: img.w,
            h: img.h,
            data: img.data.update(
                y * img.w + x,
                if mode == RenderMode::Overwrite {
                    c
                } else {
                    over_pixel(img.data[y * img.w + x], c)
                },
            ),
        }
    } else {
        img
    }
}

/// A surface after a clipped region is filled with one colour: each
/// cell of the region is replaced outright in overwrite mode or when
/// the colour is fully opaque, and "over"-composited otherwise.
pub open spec fn spec_fill_region(
    img: ImageView,
    mode: RenderMode,
    x0: int,
    x1: int,
    y0: int,
    y1: int,
    c: u32,
) -> ImageView {
    ImageView {
        w: img.w,
        h: img.h,
        data: Seq::new(
            img.data.len(),
            |i: int|
                {
                    let x = i % img.w;
                    let y = i / img.w;
                    if x0 <= x < x1 && y0 <= y < y1 {
                        if mode == RenderMode::Overwrite || (Color { data: c }).spec_a() >= 255 {
                            c
                        } else {
                            over_pixel(img.data[i], c)
                        }
                    } else {
                        img.data[i]
                    }
                },
        ),
    }
}

/// Where a rectangle's edge lands after clipping against an extent:
/// the lower edge is pulled into `[0, extent - 1]`, the upper edge
/// into `[lower, extent]`.
pub open spec fn spec_clip_lo(extent: int, v: int) -> int {
    max(0, min(extent - 1, v))
}

/// The clipped upper edge of a filled rectangle.
pub open spec fn spec_clip_hi(lo: int, extent: int, v: int) -> int {
    max(lo, min(extent, v))
}

/// A surface after a raster blit that composites a `w` by `h` source
/// image at `(sx, sy)` with the full "over" operator: columns are
/// clipped to the surface's right edge, rows fall away below its
/// bottom edge, and a blit starting outside the surface paints
/// nothing.
pub open spec fn spec_image_fast(
    img: ImageView,
    sx: int,
    sy: int,
    w: int,
    h: int,
    src: Seq<u32>,
) -> ImageView {
    if sx < 0 || sy < 0 || sx >= img.w || sy >= img.h {
        img
    } else {
        ImageView {
            w: img.w,
            h: img.h,
            data: Seq::new(
                img.data.len(),
                |i: int|
                    {
                        let x = i % img.w;
                        let y = i / img.w;
                        if sx <= x < sx + min(w, img.w - sx) && sy <= y < sy + h {
                            over_pixel(img.data[i], src[(y - sy) * w + (x - sx)])
                        } else {
                            img.data[i]
                        }
                    },
            ),
        }
    }
}

/// A surface after an opaque raster blit of a `w` by `h` source image
/// at `(sx, sy)`: pixels are copied outright, rows are clipped to the
/// surface's bottom edge, a row that would cross the right edge copies
/// one pixel less than fits, and a blit starting outside the surface
/// paints nothing.
pub open spec fn spec_image_opaque(
    img: ImageView,
    sx: int,
    sy: int,
    w: int,
    h: int,
    src: Seq<u32>,
) -> ImageView {
    if sx < 0 || sy < 0 || sx >= img.w || sy >= img.h {
        img
    } else {
        let copy_w = if sx + w <= img.w {
            w
        } else {
            img.w - sx - 1
        };
        let h_eff = min(h, img.h - sy);
        ImageView {
            w: img.w,
            h: img.h,
            data: Seq::new(
                img.data.len(),
                |i: int|
                    {
                        let x = i % img.w;
                        let y = i / img.w;
                        if sx <= x < sx + copy_w && sy <= y < sy + h_eff {
                            src[(y - sy) * w + (x - sx)]
                        } else {
                            img.data[i]
                        }
                    },
            ),
        }
    }
}

impl Image {
    /// Draws one pixel, clipped against the surface: replaced outright
    /// in overwrite mode, "over"-composited in blend mode.
    pub fn pixel(&mut self, x: i32, y: i32, color: Color)
        requires
            old(self).wf(),
        ensures
            final(self).w == old(self).w,
            final(self).h == old(self).h,
            final(self).mode == old(self).mode,
            final(self).wf(),
            final(self)@ == spec_pixel_at(old(self)@, old(self).mode, x as int, y as int, color.data),
    {
        let ghost target = spec_pixel_at(self@, self.mode, x as int, y as int, color.data);
        if x >= 0 && y >= 0 && x < self.w && y < self.h {
            proof {
                lemma_row_major_index(self.w as int, self.h as int, x as int, y as int);
            }
            let idx = (y as usize) * (self.w as usize) + (x as usize);
            let replace = match self.mode {
                RenderMode::Overwrite => true,
                RenderMode::Blend => false,
            };
            let old_c = self.data[idx].data;
            let alpha = color.data / 0x100_0000;
            if alpha >= 255 || replace {
                self.data.set(idx, color);
            } else if alpha > 0 {
                let v = over_pixel_exec(old_c, color.data);
                self.data.set(idx, Color { data: v });
            }
            proof {
                assert(self@.data =~= target.data);
                assert(self@ =~= target);
            }
        }
    }

    /// Fills the whole surface with one colour, whatever the mode.
    pub fn set(&mut self, color: Color)
        requires
            old(self).wf(),
        ensures
            final(self).w == old(self).w,
            final(self).h == old(self).h,
            final(self).mode == old(self).mode,
            final(self).wf(),
            final(self)@.data.len() == old(self)@.data.len(),
            forall|i: int|
                0 <= i < final(self)@.data.len() ==> final(self)@.data[i] == color.data,
    {
        let n = self.data.len();
        let mut i: usize = 0;
        while i < n
            invariant
                i <= n,
                self.w == old(self).w,
                self.h == old(self).h,
                self.mode == old(self).mode,
                self.data@.len() == n,
                old(self).wf(),
                n == old(self).data@.len(),
                forall|j: int| 0 <= j < i ==> self.data@[j] == color,
            decreases n - i,
        {
            self.data.set(i, color);
            i += 1;
        }
    }

    /// Fills the whole surface with opaque black.
    pub fn clear(&mut self)
        requires
            old(self).wf(),
        ensures
            final(self).w == old(self).w,
            final(self).h == old(self).h,
            final(self).mode == old(self).mode,
            final(self).wf(),
            final(self)@.data.len() == old(self)@.data.len(),
            forall|i: int|
                0 <= i < final(self)@.data.len() ==> final(self)@.data[i] == pack_argb(255, 0, 0, 0),
    {
        let black = Color::rgb(0, 0, 0);
        self.set(black);
    }

    /// Fills a rectangle with one colour, clipped against the surface:
    /// replaced outright in overwrite mode or when the colour is fully
    /// opaque, "over"-composited otherwise.
    pub fn rect(&mut self, x: i32, y: i32, rw: u32, rh: u32, color: Color)
        requires
            old(self).wf(),
            rw <= 0x7FFF_FFFF,
            rh <= 0x7FFF_FFFF,
            x + rw <= i32::MAX,
            y + rh <= i32::MAX,
        ensures
            final(self).w == old(self).w,
            final(self).h == old(self).h,
            final(self).mode == old(self).mode,
            final(self).wf(),
            final(self)@ == spec_fill_region(
                old(self)@,
                old(self).mode,
                spec_clip_lo(old(self)@.w, x as int),
                spec_clip_hi(spec_clip_lo(old(self)@.w, x as int), old(self)@.w, x + rw),
                spec_clip_lo(old(self)@.h, y as int),
                spec_clip_hi(spec_clip_lo(old(self)@.h, y as int), old(self)@.h, y + rh),
                color.data,
            ),
    {
        let replace = match self.mode {
            RenderMode::Overwrite => true,
            RenderMode::Blend => false,
        };
        let start_y = i32_max(0, i32_min(self.h - 1, y));
        let end_y = i32_max(start_y, i32_min(self.h, y + (rh as i32)));
        let start_x = i32_max(0, i32_min(self.w - 1, x));
        let end_x = i32_max(start_x, i32_min(self.w, x + (rw as i32)));
        let ghost x0 = start_x as int;
        let ghost x1 = end_x as int;
        let ghost y0 = start_y as int;
        let ghost y1 = end_y as int;
        let ghost target = spec_fill_region(self@, self.mode, x0, x1, y0, y1, color.data);
        let alpha = color.data / 0x100_0000;
        let opaque = alpha >= 255;
        let mut row: i32 = start_y;
        while row < end_y
            invariant
                start_y <= row <= end_y,
                y0 == start_y as int,
                y1 == end_y as int,
                x0 == start_x as int,
                x1 == end_x as int,
                0 <= start_y,
                end_y <= old(self).h,
                0 <= start_x,
                end_x <= old(self).w,
                start_x <= end_x,
                start_y <= end_y,
                start_y <= row,
                opaque == ((Color { data: color.data }).spec_a() >= 255),
                replace == (old(self).mode == RenderMode::Overwrite),
                self.w == old(self).w,
                self.h == old(self).h,
                self.mode == old(self).mode,
                self.data@.len() == old(self).data@.len(),
                old(self).wf(),
                target == spec_fill_region(old(self)@, old(self).mode, x0, x1, y0, y1, color.data),
                forall|px: int, py: int|
                    0 <= px < self.w && 0 <= py < self.h ==> #[trigger] self@.pix(px, py) == (
                    if x0 <= px < x1 && y0 <= py < row {
                        target.pix(px, py)
                    } else {
                        old(self)@.pix(px, py)
                    }),
            decreases end_y - row,
        {
            let mut col: i32 = start_x;
            while col < end_x
                invariant
                    start_x <= col <= end_x,
                    start_y <= row < end_y,
                    y0 == start_y as int,
                    y1 == end_y as int,
                    x0 == start_x as int,
                    x1 == end_x as int,
                    0 <= start_y,
                    end_y <= old(self).h,
                    0 <= start_x,
                    end_x <= old(self).w,
                    opaque == ((Color { data: color.data }).spec_a() >= 255),
                    replace == (old(self).mode == RenderMode::Overwrite),
                    self.w == old(self).w,
                    self.h == old(self).h,
                    self.mode == old(self).mode,
                    self.data@.len() == old(self).data@.len(),
                    old(self).wf(),
                    target == spec_fill_region(
                        old(self)@,
                        old(self).mode,
                        x0,
                        x1,
                        y0,
                        y1,
                        color.data,
                    ),
                    forall|px: int, py: int|
                        0 <= px < self.w && 0 <= py < self.h ==> #[trigger] self@.pix(px, py) == (
                        if (x0 <= px < x1 && y0 <= py < row) || (py == row && x0 <= px < col) {
                            target.pix(px, py)
                        } else {
                            old(self)@.pix(px, py)
                        }),
                decreases end_x - col,
            {
                proof {
                    lemma_row_major_index(self.w as int, self.h as int, col as int, row as int);
                    lemma_row_major_coords(self.w as int, col as int, row as int);
                }
                let ghost before = self@;
                let idx = (row as usize) * (self.w as usize) + (col as usize);
                let old_c = self.data[idx].data;
                proof {
                    assert(old_c == before.pix(col as int, row as int));
                    assert(before.pix(col as int, row as int) == old(self)@.pix(
                        col as int,
                        row as int,
                    ));
                    assert(target.data[idx as int] == (if old(self).mode == RenderMode::Overwrite
                        || (Color { data: color.data }).spec_a() >= 255 {
                        color.data
                    } else {
                        over_pixel(old(self)@.data[idx as int], color.data)
                    }));
                }
                if opaque || replace {
                    self.data.set(idx, color);
                } else {
                    let v = over_pixel_exec(old_c, color.data);
                    self.data.set(idx, Color { data: v });
                }
                proof {
                    assert forall|px: int, py: int|
                        0 <= px < self.w && 0 <= py < self.h implies #[trigger] self@.pix(px, py)
                        == (if (x0 <= px < x1 && y0 <= py < row) || (py == row && x0 <= px < col
                        + 1) {
                        target.pix(px, py)
                    } else {
                        old(self)@.pix(px, py)
                    }) by {
                        if px == col as int && py == row as int {
                            assert(self@.pix(px, py) == target.data[idx as int]);
                            assert(target.pix(px, py) == target.data[idx as int]);
                        } else {
                            lemma_row_major_index(self.w as int, self.h as int, px, py);
                            lemma_row_major_distinct(self.w as int, px, py, col as int, row as int);
                            assert(self@.pix(px, py) == before.pix(px, py));
                        }
                    }
                }
                col += 1;
            }
            row += 1;
        }
        proof {
            assert forall|px: int, py: int|
                0 <= px < self.w && 0 <= py < self.h implies #[trigger] self@.pix(px, py)
                == target.pix(px, py) by {
                lemma_row_major_index(self.w as int, self.h as int, px, py);
                lemma_row_major_coords(self.w as int, px, py);
            }
            crate::image::lemma_pix_complete(self@, target);
        }
    }

    /// Blits a `w` by `h` source image at `(start_x, start_y)`,
    /// compositing each pixel with the full "over" operator; columns
    /// and rows that fall outside the surface are clipped away rather
    /// than failing, and a blit starting outside the surface paints
    /// nothing.
    pub fn image_fast(&mut self, start_x: i32, start_y: i32, w: u32, h: u32, image_data: &[Color])
        requires
            old(self).wf(),
            w <= 0x7FFF_FFFF,
            h <= 0x7FFF_FFFF,
            image_data@.len() >= w * h,
        ensures
            final(self).w == old(self).w,
            final(self).h == old(self).h,
            final(self).mode == old(self).mode,
            final(self).wf(),
            final(self)@ == spec_image_fast(
                old(self)@,
                start_x as int,
                start_y as int,
                w as int,
                h as int,
                image_data@.map_values(|c: Color| c.data),
            ),
    {
        let ghost src = image_data@.map_values(|c: Color| c.data);
        let ghost target = spec_image_fast(
            self@,
            start_x as int,
            start_y as int,
            w as int,
            h as int,
            src,
        );
        let data_len = image_data.len();
        proof {
            assert(image_data@.len() == data_len);
        }
        if start_x < 0 || start_y < 0 || start_x >= self.w || start_y >= self.h {
            return ;
        }
        let cw: i32 = if (start_x as i64) + (w as i64) <= (self.w as i64) {
            w as i32
        } else {
            self.w - start_x
        };
        let rows: i32 = if (start_y as i64) + (h as i64) <= (self.h as i64) {
            h as i32
        } else {
            self.h - start_y
        };
        let mut l: i32 = 0;
        while l < rows
            invariant
                0 <= l <= rows,
                0 <= start_x < old(self).w,
                0 <= start_y < old(self).h,
                cw == min(w as int, old(self).w - start_x),
                rows == min(h as int, old(self).h - start_y),
                w <= 0x7FFF_FFFF,
                h <= 0x7FFF_FFFF,
                self.w == old(self).w,
                self.h == old(self).h,
                self.mode == old(self).mode,
                self.data@.len() == old(self).data@.len(),
                old(self).wf(),
                src == image_data@.map_values(|c: Color| c.data),
                src.len() >= w * h,
                image_data@.len() <= usize::MAX,
                target == spec_image_fast(
                    old(self)@,
                    start_x as int,
                    start_y as int,
                    w as int,
                    h as int,
                    src,
                ),
                forall|px: int, py: int|
                    0 <= px < self.w && 0 <= py < self.h ==> #[trigger] self@.pix(px, py) == (
                    if start_x <= px < start_x + cw && start_y <= py < start_y + l {
                        target.pix(px, py)
                    } else {
                        old(self)@.pix(px, py)
                    }),
            decreases rows - l,
        {
            let mut c: i32 = 0;
            while c < cw
                invariant
                    0 <= c <= cw,
                    0 <= l < rows,
                    0 <= start_x < old(self).w,
                    0 <= start_y < old(self).h,
                    cw == min(w as int, old(self).w - start_x),
                    rows == min(h as int, old(self).h - start_y),
                    w <= 0x7FFF_FFFF,
                    h <= 0x7FFF_FFFF,
                    self.w == old(self).w,
                    self.h == old(self).h,
                    self.mode == old(self).mode,
                    self.data@.len() == old(self).data@.len(),
                    old(self).wf(),
                    src == image_data@.map_values(|c0: Color| c0.data),
                    src.len() >= w * h,
                    image_data@.len() <= usize::MAX,
                    target == spec_image_fast(
                        old(self)@,
                        start_x as int,
                        start_y as int,
                        w as int,
                        h as int,
                        src,
                    ),
                    forall|px: int, py: int|
                        0 <= px < self.w && 0 <= py < self.h ==> #[trigger] self@.pix(px, py) == (
                        if (start_x <= px < start_x + cw && start_y <= py < start_y + l) || (py
                            == start_y + l && start_x <= px < start_x + c) {
                            target.pix(px, py)
                        } else {
                            old(self)@.pix(px, py)
                        }),
                decreases cw - c,
            {
                let dx = start_x + c;
                let dy = start_y + l;
                proof {
                    lemma_row_major_index(self.w as int, self.h as int, dx as int, dy as int);
                    lemma_row_major_coords(self.w as int, dx as int, dy as int);
                    lemma_row_major_index(w as int, h as int, c as int, l as int);
                }
                let ghost before = self@;
                let di = (dy as usize) * (self.w as usize) + (dx as usize);
                let si = (l as usize) * (w as usize) + (c as usize);
                let d = self.data[di].data;
                let s = image_data[si].data;
                proof {
                    assert(d == before.pix(dx as int, dy as int));
                    assert(before.pix(dx as int, dy as int) == old(self)@.pix(
                        dx as int,
                        dy as int,
                    ));
                    assert(s == src[si as int]);
                    assert(target.data[di as int] == over_pixel(
                        old(self)@.data[di as int],
                        src[si as int],
                    ));
                }
                let v = over_pixel_exec(d, s);
                self.data.set(di, Color { data: v });
                proof {
                    assert forall|px: int, py: int|
                        0 <= px < self.w && 0 <= py < self.h implies #[trigger] self@.pix(px, py)
                        == (if (start_x <= px < start_x + cw && start_y <= py < start_y + l) || (py
                        == start_y + l && start_x <= px < start_x + c + 1) {
                        target.pix(px, py)
                    } else {
                        old(self)@.pix(px, py)
                    }) by {
                        if px == dx as int && py == dy as int {
                            assert(self@.pix(px, py) == target.data[di as int]);
                            assert(target.pix(px, py) == target.data[di as int]);
                        } else {
                            lemma_row_major_index(self.w as int, self.h as int, px, py);
                            lemma_row_major_distinct(self.w as int, px, py, dx as int, dy as int);
                            assert(self@.pix(px, py) == before.pix(px, py));
                        }
                    }
                }
                c += 1;
            }
            l += 1;
        }
        proof {
            assert forall|px: int, py: int|
                0 <= px < self.w && 0 <= py < self.h implies #[trigger] self@.pix(px, py)
                == target.pix(px, py) by {
                lemma_row_major_index(self.w as int, self.h as int, px, py);
                lemma_row_major_coords(self.w as int, px, py);
            }
            crate::image::lemma_pix_complete(self@, target);
        }
    }

    /// Blits a `w` by `h` source image at `(start_x, start_y)`,
    /// copying pixels outright; rows are clipped to the surface's
    /// bottom edge, a row that would cross the right edge copies one
    /// pixel less than fits, and a blit starting outside the surface
    /// paints nothing.
    pub fn image_opaque(&mut self, start_x: i32, start_y: i32, w: u32, h: u32, image_data: &[Color])
        requires
            old(self).wf(),
            w <= 0x7FFF_FFFF,
            h <= 0x7FFF_FFFF,
            image_data@.len() >= w * h,
        ensures
            final(self).w == old(self).w,
            final(self).h == old(self).h,
            final(self).mode == old(self).mode,
            final(self).wf(),
            final(self)@ == spec_image_opaque(
                old(self)@,
                start_x as int,
                start_y as int,
                w as int,
                h as int,
                image_data@.map_values(|c: Color| c.data),
            ),
    {
        let ghost src = image_data@.map_values(|c: Color| c.data);
        let ghost target = spec_image_opaque(
            self@,
            start_x as int,
            start_y as int,
            w as int,
            h as int,
            src,
        );
        let data_len = image_data.len();
        proof {
            assert(image_data@.len() == data_len);
        }
        if start_x < 0 || start_y < 0 || start_x >= self.w || start_y >= self.h {
            return ;
        }
        let cw: i32 = if (start_x as i64) + (w as i64) <= (self.w as i64) {
            w as i32
        } else {
            self.w - start_x - 1
        };
        let rows: i32 = if (start_y as i64) + (h as i64) <= (self.h as i64) {
            h as i32
        } else {
            self.h - start_y
        };
        let mut l: i32 = 0;
        while l < rows
            invariant
                0 <= l <= rows,
                0 <= start_x < old(self).w,
                0 <= start_y < old(self).h,
                cw == (if start_x + w <= old(self).w {
                    w as int
                } else {
                    old(self).w - start_x - 1
                }),
                cw <= w,
                rows == min(h as int, old(self).h - start_y),
                start_x + cw <= old(self).w,
                w <= 0x7FFF_FFFF,
                h <= 0x7FFF_FFFF,
                self.w == old(self).w,
                self.h == old(self).h,
                self.mode == old(self).mode,
                self.data@.len() == old(self).data@.len(),
                old(self).wf(),
                src == image_data@.map_values(|c: Color| c.data),
                src.len() >= w * h,
                image_data@.len() <= usize::MAX,
                target == spec_image_opaque(
                    old(self)@,
                    start_x as int,
                    start_y as int,
                    w as int,
                    h as int,
                    src,
                ),
                forall|px: int, py: int|
                    0 <= px < self.w && 0 <= py < self.h ==> #[trigger] self@.pix(px, py) == (
                    if start_x <= px < start_x + cw && start_y <= py < start_y + l {
                        target.pix(px, py)
                    } else {
                        old(self)@.pix(px, py)
                    }),
            decreases rows - l,
        {
            let mut c: i32 = 0;
            while c < cw
                invariant
                    0 <= c <= cw,
                    0 <= l < rows,
                    0 <= start_x < old(self).w,
                    0 <= start_y < old(self).h,
                    cw == (if start_x + w <= old(self).w {
                        w as int
                    } else {
                        old(self).w - start_x - 1
                    }),
                    cw <= w,
                    rows == min(h as int, old(self).h - start_y),
                    start_x + cw <= old(self).w,
                    w <= 0x7FFF_FFFF,
                    h <= 0x7FFF_FFFF,
                    self.w == old(self).w,
                    self.h == old(self).h,
                    self.mode == old(self).mode,
                    self.data@.len() == old(self).data@.len(),
                    old(self).wf(),
                    src == image_data@.map_values(|c0: Color| c0.data),
                    src.len() >= w * h,
                    image_data@.len() <= usize::MAX,
                    target == spec_image_opaque(
                        old(self)@,
                        start_x as int,
                        start_y as int,
                        w as int,
                        h as int,
                        src,
                    ),
                    forall|px: int, py: int|
                        0 <= px < self.w && 0 <= py < self.h ==> #[trigger] self@.pix(px, py) == (
                        if (start_x <= px < start_x + cw && start_y <= py < start_y + l) || (py
                            == start_y + l && start_x <= px < start_x + c) {
                            target.pix(px, py)
                        } else {
                            old(self)@.pix(px, py)
                        }),
                decreases cw - c,
            {
                let dx = start_x + c;
                let dy = start_y + l;
                proof {
                    lemma_row_major_index(self.w as int, self.h as int, dx as int, dy as int);
                    lemma_row_major_coords(self.w as int, dx as int, dy as int);
                    lemma_row_major_index(w as int, h as int, c as int, l as int);
                }
                let ghost before = self@;
                let di = (dy as usize) * (self.w as usize) + (dx as usize);
                let si = (l as usize) * (w as usize) + (c as usize);
                let s = image_data[si];
                proof {
                    assert(s.data == src[si as int]);
                    assert(target.data[di as int] == src[si as int]);
                }
                self.data.set(di, s);
                proof {
                    assert forall|px: int, py: int|
                        0 <= px < self.w && 0 <= py < self.h implies #[trigger] self@.pix(px, py)
                        == (if (start_x <= px < start_x + cw && start_y <= py < start_y + l) || (py
                        == start_y + l && start_x <= px < start_x + c + 1) {
                        target.pix(px, py)
                    } else {
                        old(self)@.pix(px, py)
                    }) by {
                        if px == dx as int && py == dy as int {
                            assert(self@.pix(px, py) == target.data[di as int]);
                            assert(target.pix(px, py) == target.data[di as int]);
                        } else {
                            lemma_row_major_index(self.w as int, self.h as int, px, py);
                            lemma_row_major_distinct(self.w as int, px, py, dx as int, dy as int);
                            assert(self@.pix(px, py) == before.pix(px, py));
                        }
                    }
                }
                c += 1;
            }
            l += 1;
        }
        proof {
            assert forall|px: int, py: int|
                0 <= px < self.w && 0 <= py < self.h implies #[trigger] self@.pix(px, py)
                == target.pix(px, py) by {
                lemma_row_major_index(self.w as int, self.h as int, px, py);
                lemma_row_major_coords(self.w as int, px, py);
            }
            crate::image::lemma_pix_complete(self@, target);
        }
    }

    /// Blits a `w` by `h` source image at `(start_x, start_y)` with
    /// the operator the surface's mode selects: blending composites,
    /// overwriting copies.
    pub fn image(&mut self, start_x: i32, start_y: i32, w: u32, h: u32, image_data: &[Color])
        requires
            old(self).wf(),
            w <= 0x7FFF_FFFF,
            h <= 0x7FFF_FFFF,
            image_data@.len() >= w * h,
        ensures
            final(self).w == old(self).w,
            final(self).h == old(self).h,
            final(self).mode == old(self).mode,
            final(self).wf(),
            final(self)@ == (if old(self).mode == RenderMode::Blend {
                spec_image_fast(
                    old(self)@,
                    start_x as int,
                    start_y as int,
                    w as int,
                    h as int,
                    image_data@.map_values(|c: Color| c.data),
                )
            } else {
                spec_image_opaque(
                    old(self)@,
                    start_x as int,
                    start_y as int,
                    w as int,
                    h as int,
                    image_data@.map_values(|c: Color| c.data),
                )
            }),
    {
        match self.mode {
            RenderMode::Blend => self.image_fast(start_x, start_y, w, h, image_data),
            RenderMode::Overwrite => self.image_opaque(start_x, start_y, w, h, image_data),
        }
    }
}

/// The larger of two values.
fn i32_max(a: i32, b: i32) -> (r: i32)
    ensures
        r == max(a as int, b as int),
{
    if a > b {
        a
    } else {
        b
    }
}

/// The smaller of two values.
fn i32_min(a: i32, b: i32) -> (r: i32)
    ensures
        r == min(a as int, b as int),
{
    if a < b {
        a
    } else {
        b
    }
}

} // verus!
