//! The compositor's damage bookkeeping: pending damage rectangles are
//! collected, merged when a merge does not enlarge the total repaint
//! cost, and drained on each redraw cycle.

use vstd::prelude::*;
use crate::image::ImageView;
use crate::rect::{Rect, COORD_MAX};
use crate::server::StarryServer;
use crate::window::{Window, WindowZOrderMode};
use crate::window_manager::{
    filter_class, lemma_filter_class_first, lemma_filter_class_none, lemma_filter_class_single,
    spec_cursor_rect_of, table_has, table_index, table_window, WindowManager, ZBufferEntry,
};
use vstd::math::{max, min};

verus! {

/// A new damage rectangle is folded into an existing pending one when
/// the area of their container does not exceed the sum of their areas:
/// the rectangles already touch, overlap, or nearly so, which bounds
/// the cost of over-damaging.
pub open spec fn should_merge(existing: Rect, incoming: Rect) -> bool {
    existing.spec_container(incoming).w * existing.spec_container(incoming).h <= existing.w
        * existing.h + incoming.w * incoming.h
}

/// A pending-damage list after a rectangle is merged into it: every
/// pending rectangle it merges with grows to the container of the two;
/// the rest stay as they are.
pub open spec fn merge_list(list: Seq<Rect>, incoming: Rect) -> Seq<Rect> {
    Seq::new(
        list.len(),
        |j: int|
            if should_merge(list[j], incoming) {
                list[j].spec_container(incoming)
            } else {
                list[j]
            },
    )
}

/// The incoming rectangle merges with at least one pending one.
pub open spec fn any_merge(list: Seq<Rect>, incoming: Rect) -> bool {
    exists|j: int| 0 <= j < list.len() && should_merge(list[j], incoming)
}

/// A pending-damage list after one redraw request: merged into the
/// pending rectangles where that pays, appended otherwise.
pub open spec fn spec_request(list: Seq<Rect>, incoming: Rect) -> Seq<Rect> {
    if any_merge(list, incoming) {
        merge_list(list, incoming)
    } else {
        list.push(incoming)
    }
}

/// Some rectangle of the list covers the pixel cell `(px, py)`.
pub open spec fn damage_covers(list: Seq<Rect>, px: int, py: int) -> bool {
    exists|j: int| 0 <= j < list.len() && (#[trigger] list[j]).covers(px, py)
}

/// Every rectangle of the list is well-formed.
pub open spec fn damage_wf(list: Seq<Rect>) -> bool {
    forall|j: int| 0 <= j < list.len() ==> (#[trigger] list[j]).wf()
}

/// The compositor's pending damage: the screen regions that must be
/// recomposited before the next flush.
pub struct Compositor {
    /// The pending damage rectangles; they may overlap.
    pub redraws: Vec<Rect>,
}

impl Compositor {
    /// Every pending rectangle is well-formed.
    pub open spec fn wf(self) -> bool {
        damage_wf(self.redraws@)
    }

    /// Creates a compositor with no pending damage.
    pub fn new() -> (c: Compositor)
        ensures
            c.wf(),
            c.redraws@ == Seq::<Rect>::empty(),
    {
        let c = Compositor { redraws: Vec::new() };
        proof {
            assert(c.redraws@ =~= Seq::<Rect>::empty());
        }
        c
    }

    /// Records that a screen region must be recomposited. The region
    /// is folded into every pending rectangle whose container with it
    /// is no larger than the two areas together; if none qualifies it
    /// is appended on its own. No damage is ever dropped: afterwards
    /// the list covers every cell it covered before, and every cell of
    /// the new region.
    pub fn request_redraw(&mut self, rect: Rect)
        requires
            old(self).wf(),
            rect.wf(),
        ensures
            final(self).wf(),
            final(self).redraws@ == spec_request(old(self).redraws@, rect),
            forall|px: int, py: int|
                damage_covers(old(self).redraws@, px, py) ==> damage_covers(
                    final(self).redraws@,
                    px,
                    py,
                ),
            forall|px: int, py: int|
                rect.covers(px, py) ==> damage_covers(final(self).redraws@, px, py),
    {
        let ghost orig = self.redraws@;
        let mut push = true;
        let mut k: usize = 0;
        while k < self.redraws.len()
            invariant
                0 <= k <= self.redraws@.len(),
                self.redraws@.len() == orig.len(),
                rect.wf(),
                damage_wf(orig),
                forall|j: int| k <= j < orig.len() ==> self.redraws@[j] == orig[j],
                forall|j: int|
                    0 <= j < k ==> self.redraws@[j] == (if should_merge(orig[j], rect) {
                        orig[j].spec_container(rect)
                    } else {
                        orig[j]
                    }),
                push == !any_merge(orig.take(k as int), rect),
            decreases self.redraws@.len() - k,
        {
            let existing = self.redraws[k];
            proof {
                assert(existing == orig[k as int]);
                assert(existing.wf());
            }
            let container = existing.container(&rect);
            let ca = rect_area_i64(&container);
            let ea = rect_area_i64(&existing);
            let ra = rect_area_i64(&rect);
            if ca <= ea + ra {
                self.redraws.set(k, container);
                push = false;
            }
            proof {
                let t1 = orig.take(k as int + 1);
                let t0 = orig.take(k as int);
                if should_merge(orig[k as int], rect) {
                    assert(should_merge(t1[k as int], rect));
                    assert(any_merge(t1, rect));
                } else {
                    if any_merge(t1, rect) {
                        let j = choose|j: int| 0 <= j < t1.len() && should_merge(t1[j], rect);
                        assert(j < k);
                        assert(should_merge(t0[j], rect));
                        assert(any_merge(t0, rect));
                    }
                    if any_merge(t0, rect) {
                        let j = choose|j: int| 0 <= j < t0.len() && should_merge(t0[j], rect);
                        assert(should_merge(t1[j], rect));
                        assert(any_merge(t1, rect));
                    }
                }
            }
            k += 1;
        }
        if push {
            self.redraws.push(rect);
        }
        proof {
            assert(orig.take(orig.len() as int) == orig) by {
                assert(orig.take(orig.len() as int) =~= orig);
            }
            if any_merge(orig, rect) {
                assert(self.redraws@ =~= merge_list(orig, rect));
            } else {
                assert(self.redraws@ =~= orig.push(rect));
            }
            assert forall|j: int|
                0 <= j < self.redraws@.len() implies (#[trigger] self.redraws@[j]).wf() by {
                if j < orig.len() {
                    crate::rect::lemma_container_contains_both(orig[j], rect);
                }
            }
            assert forall|px: int, py: int|
                damage_covers(orig, px, py) implies damage_covers(self.redraws@, px, py) by {
                let j = choose|j: int| 0 <= j < orig.len() && (#[trigger] orig[j]).covers(px, py);
                crate::rect::lemma_container_contains_both(orig[j], rect);
                assert(self.redraws@[j].covers(px, py));
            }
            assert forall|px: int, py: int|
                rect.covers(px, py) implies damage_covers(self.redraws@, px, py) by {
                if any_merge(orig, rect) {
                    let j = choose|j: int|
                        0 <= j < orig.len() && should_merge(#[trigger] orig[j], rect);
                    crate::rect::lemma_container_contains_both(orig[j], rect);
                    assert(self.redraws@[j].covers(px, py));
                } else {
                    assert(self.redraws@[orig.len() as int].covers(px, py));
                }
            }
        }
    }

    /// One full redraw cycle: rebuilds the paint order, then, one
    /// pending damage rectangle at a time, composites into every
    /// display the damage touches — windows back to front, the cursor
    /// blended on top — and drains the damage completely, so none is
    /// ever lost. Returns the cumulative dirty rectangle; flushing
    /// those pixels to the physical sink is the caller's part, and a
    /// failed flush costs only that frame.
    pub fn redraw_all(&mut self, wm: &mut WindowManager, server: &mut StarryServer) -> (dirty:
        Option<Rect>)
        requires
            old(self).wf(),
            old(wm).wf(),
            old(server).wf(),
        ensures
            final(self).wf(),
            final(wm).wf(),
            final(server).wf(),
            final(self).redraws@ == Seq::<Rect>::empty(),
            dirty == spec_total_dirty(old(self).redraws@),
            dirty matches Some(t) ==> t.wf(),
            final(wm).zbuffer@ == old(wm).spec_zbuffer(),
            final(wm).next_id == old(wm).next_id,
            final(wm).order == old(wm).order,
            final(wm).windows == old(wm).windows,
            final(wm).cursor_x == old(wm).cursor_x,
            final(wm).cursor_y == old(wm).cursor_y,
            final(wm).cursor_i == old(wm).cursor_i,
            final(wm).events == old(wm).events,
            final(server).cursors == old(server).cursors,
            final(server).displays@.len() == old(server).displays@.len(),
            forall|dd: int|
                0 <= dd < old(server).displays@.len() ==> {
                    let pre = old(server).displays@[dd];
                    let cur = #[trigger] final(server).displays@[dd];
                    &&& cur.x == pre.x
                    &&& cur.y == pre.y
                    &&& cur.image.w == pre.image.w
                    &&& cur.image.h == pre.image.h
                    &&& cur.image@ == spec_composite_damage(
                        old(self).redraws@,
                        old(wm).spec_zbuffer(),
                        old(wm).windows@,
                        spec_cursor_rect_of(old(wm).spec_cursor_state(), *old(server)),
                        old(server).spec_cursor_image(old(wm).cursor_i)@,
                        pre.x,
                        pre.y,
                        pre.image@,
                    )
                },
    {
        let cursor_rect = wm.cursor_rect(server);
        let cursor_image = server.cursor_image(wm.cursor_i).duplicate();
        wm.rezbuffer();
        let ghost damage = self.redraws@;
        let ghost zb = wm.zbuffer@;
        let ghost wins = wm.windows@;
        let ghost crect = cursor_rect;
        let ghost cimg = cursor_image@;
        let ghost displays0 = server.displays@;
        let ghost wm1 = *wm;

        let mut total: Option<Rect> = None;
        let mut i: usize = 0;
        while i < self.redraws.len()
            invariant
                self.redraws@ == damage,
                damage_wf(damage),
                0 <= i <= damage.len(),
                *wm == wm1,
                wm.wf(),
                zb == wm.zbuffer@,
                wins == wm.windows@,
                server.cursors == old(server).cursors,
                server.wf(),
                crect.wf(),
                cimg.wf(),
                crect.w == cimg.w,
                crect.h == cimg.h,
                cursor_rect == crect,
                cursor_image@ == cimg,
                total == spec_total_from(damage.take(i as int), Option::None),
                total matches Some(t) ==> t.wf(),
                server.displays@.len() == displays0.len(),
                forall|dd: int|
                    0 <= dd < displays0.len() ==> {
                        let pre = displays0[dd];
                        let cur = #[trigger] server.displays@[dd];
                        &&& cur.x == pre.x
                        &&& cur.y == pre.y
                        &&& cur.image.w == pre.image.w
                        &&& cur.image.h == pre.image.h
                        &&& cur.wf()
                        &&& cur.image@ == spec_composite_damage(
                            damage.take(i as int),
                            zb,
                            wins,
                            crect,
                            cimg,
                            pre.x,
                            pre.y,
                            pre.image@,
                        )
                    },
            decreases damage.len() - i,
        {
            let rect = self.redraws[i];
            if !rect.is_empty() {
                total = match total {
                    Some(t) => Some(t.container(&rect)),
                    None => Some(rect),
                };
            }
            proof {
                assert(damage.take(i as int + 1) =~= damage.take(i as int).push(rect));
                lemma_total_from_snoc(damage.take(i as int), rect, Option::None);
            }
            let ghost displays_pre = server.displays@;
            let mut d: usize = 0;
            while d < server.displays.len()
                invariant
                    self.redraws@ == damage,
                    damage_wf(damage),
                    0 <= i < damage.len(),
                    rect == damage[i as int],
                    *wm == wm1,
                    wm.wf(),
                    zb == wm.zbuffer@,
                    wins == wm.windows@,
                    server.cursors == old(server).cursors,
                    server.wf(),
                    crect.wf(),
                    cimg.wf(),
                    crect.w == cimg.w,
                    crect.h == cimg.h,
                    cursor_rect == crect,
                    cursor_image@ == cimg,
                    rect.wf(),
                    0 <= d <= displays_pre.len(),
                    server.displays@.len() == displays_pre.len(),
                    displays_pre.len() == displays0.len(),
                    forall|dd: int|
                        0 <= dd < displays0.len() ==> {
                            let pre = displays0[dd];
                            let mid = #[trigger] displays_pre[dd];
                            &&& mid.x == pre.x
                            &&& mid.y == pre.y
                            &&& mid.image.w == pre.image.w
                            &&& mid.image.h == pre.image.h
                            &&& mid.wf()
                        },
                    forall|dd: int|
                        0 <= dd < d ==> {
                            let mid = displays_pre[dd];
                            let cur = #[trigger] server.displays@[dd];
                            &&& cur.x == mid.x
                            &&& cur.y == mid.y
                            &&& cur.image.w == mid.image.w
                            &&& cur.image.h == mid.image.h
                            &&& cur.wf()
                            &&& cur.image@ == spec_composite_rect(
                                zb,
                                wins,
                                crect,
                                cimg,
                                mid.x,
                                mid.y,
                                mid.image@,
                                rect,
                            )
                        },
                    forall|dd: int|
                        d <= dd < displays_pre.len() ==> #[trigger] server.displays@[dd]
                            == displays_pre[dd],
                decreases displays_pre.len() - d,
            {
                let screen = server.displays[d].screen_rect();
                let r = rect.intersection(&screen);
                let ghost img_base = server.displays@[d as int].image@;
                let ghost dpx = server.displays@[d as int].x;
                let ghost dpy = server.displays@[d as int].y;
                let ghost displays_mid = server.displays@;
                if !r.is_empty() {
                    proof {
                        crate::rect::lemma_intersection_in_both(rect, screen);
                    }
                    let mut idx = wm.zbuffer.len();
                    while idx > 0
                        invariant
                            *wm == wm1,
                            wm.wf(),
                            zb == wm.zbuffer@,
                            wins == wm.windows@,
                            server.cursors == old(server).cursors,
                            server.wf(),
                            0 <= idx <= zb.len(),
                            r.wf(),
                            !r.spec_is_empty(),
                            displays_mid.len() == server.displays@.len(),
                            0 <= (d as int) < displays_mid.len(),
                            img_base == displays_mid[d as int].image@,
                            forall|dd: int|
                                0 <= dd < displays_mid.len() && dd != d as int
                                    ==> #[trigger] server.displays@[dd] == displays_mid[dd],
                            ({
                                let cur = server.displays@[d as int];
                                &&& cur.x == dpx
                                &&& cur.y == dpy
                                &&& cur.image.w == displays_mid[d as int].image.w
                                &&& cur.image.h == displays_mid[d as int].image.h
                                &&& cur.wf()
                                &&& cur.image@ == spec_draw_entries(
                                    zb.skip(idx as int),
                                    wins,
                                    img_base,
                                    dpx as int,
                                    dpy as int,
                                    r,
                                )
                            }),
                            screen == (Rect {
                                x: dpx,
                                y: dpy,
                                w: img_base.w as i32,
                                h: img_base.h as i32,
                            }),
                            r == rect.spec_intersection(screen),
                            screen.spec_contains_rect(r),
                            screen.wf(),
                        decreases idx,
                    {
                        idx -= 1;
                        let entry = wm.zbuffer[idx];
                        let ghost before_img = server.displays@[d as int].image@;
                        proof {
                            assert(zb.skip(idx as int)[0] == zb[idx as int]);
                            assert(zb.skip(idx as int).skip(1) =~= zb.skip(idx as int + 1));
                        }
                        match wm.window_position(entry.0) {
                            Some(j) => {
                                proof {
                                    crate::window_manager::lemma_table_window_at(wins, j as int);
                                }
                                let win = &wm.windows[j];
                                proof {
                                    assert(server.displays@[d as int].spec_screen_rect()
                                        == screen);
                                }
                                win.draw(&mut server.displays[d], &r);
                                proof {
                                    assert(table_has(wins, entry.0));
                                    assert(table_window(wins, entry.0) == wins[j as int]);
                                    assert(server.displays@[d as int].image@ == spec_draw_entries(
                                        zb.skip(idx as int),
                                        wins,
                                        img_base,
                                        dpx as int,
                                        dpy as int,
                                        r,
                                    ));
                                }
                            },
                            None => {
                                proof {
                                    assert(!table_has(wins, entry.0));
                                }
                            },
                        }
                    }
                    proof {
                        assert(zb.skip(0) =~= zb);
                    }
                }
                let ci = r.intersection(&cursor_rect);
                if !ci.is_empty() {
                    proof {
                        crate::rect::lemma_intersection_in_both(r, crect);
                        crate::rect::lemma_intersection_in_both(rect, screen);
                    }
                    let ddx = server.displays[d].x;
                    let ddy = server.displays[d].y;
                    let dst_rect = ci.offset(-ddx, -ddy);
                    let src_rect = ci.offset(-cursor_rect.left(), -cursor_rect.top());
                    let disp = &mut server.displays[d];
                    disp.image.blend(&dst_rect, &cursor_image, &src_rect);
                }
                proof {
                    assert(server.displays@[d as int].image@ == spec_composite_rect(
                        zb,
                        wins,
                        crect,
                        cimg,
                        dpx,
                        dpy,
                        img_base,
                        rect,
                    ));
                }
                d += 1;
            }
            proof {
                assert forall|dd: int| 0 <= dd < displays0.len() implies {
                    let pre = displays0[dd];
                    let cur = #[trigger] server.displays@[dd];
                    &&& cur.x == pre.x
                    &&& cur.y == pre.y
                    &&& cur.image.w == pre.image.w
                    &&& cur.image.h == pre.image.h
                    &&& cur.wf()
                    &&& cur.image@ == spec_composite_damage(
                        damage.take(i as int + 1),
                        zb,
                        wins,
                        crect,
                        cimg,
                        pre.x,
                        pre.y,
                        pre.image@,
                    )
                } by {
                    lemma_composite_damage_snoc(
                        damage.take(i as int),
                        rect,
                        zb,
                        wins,
                        crect,
                        cimg,
                        displays0[dd].x,
                        displays0[dd].y,
                        displays0[dd].image@,
                    );
                }
            }
            i += 1;
        }
        proof {
            assert(damage.take(damage.len() as int) == damage) by {
                assert(damage.take(damage.len() as int) =~= damage);
            }
        }
        self.redraws.clear();
        proof {
            assert(self.redraws@ =~= Seq::<Rect>::empty());
        }
        total
    }
}

/// The area of a well-formed rectangle, computed without overflow.
fn rect_area_i64(r: &Rect) -> (a: i64)
    requires
        r.wf(),
    ensures
        a == r.w * r.h,
        0 <= a < 0x4000_0000_0000_0000,
{
    proof {
        assert(0 <= (r.w as int) * (r.h as int) < 0x4000_0000_0000_0000) by (nonlinear_arith)
            requires
                0 <= r.w < 0x8000_0000 && 0 <= r.h < 0x8000_0000,
        ;
    }
    (r.w as i64) * (r.h as i64)
}

/// Merging two well-formed rectangles that share a full edge — so
/// their union is itself a rectangle — always pays: the request for
/// the second folds into the first, leaving one pending rectangle
/// whose area is exactly the sum of the two.
pub proof fn lemma_damage_merge_adjacent(a: Rect, b: Rect)
    requires
        a.wf(),
        b.wf(),
        (a.y == b.y && a.h == b.h && (a.spec_right() == b.x || b.spec_right() == a.x)) || (a.x
            == b.x && a.w == b.w && (a.spec_bottom() == b.y || b.spec_bottom() == a.y)),
    ensures
        should_merge(a, b),
        spec_request(seq![a], b) == seq![a.spec_container(b)],
        a.spec_container(b).w * a.spec_container(b).h == a.w * a.h + b.w * b.h,
{
    let c = a.spec_container(b);
    if a.y == b.y && a.h == b.h && (a.spec_right() == b.x || b.spec_right() == a.x) {
        if a.spec_right() == b.x {
            assert(min(a.x as int, b.x as int) == a.x);
            assert(max(a.spec_right(), b.spec_right()) == b.spec_right());
        } else {
            assert(min(a.x as int, b.x as int) == b.x);
            assert(max(a.spec_right(), b.spec_right()) == a.spec_right());
        }
        assert(c.w == a.w + b.w && c.h == a.h);
        assert((a.w + b.w) * a.h == a.w * a.h + b.w * b.h) by (nonlinear_arith)
            requires
                a.h == b.h,
        ;
    } else {
        if a.spec_bottom() == b.y {
            assert(min(a.y as int, b.y as int) == a.y);
            assert(max(a.spec_bottom(), b.spec_bottom()) == b.spec_bottom());
        } else {
            assert(min(a.y as int, b.y as int) == b.y);
            assert(max(a.spec_bottom(), b.spec_bottom()) == a.spec_bottom());
        }
        assert(c.h == a.h + b.h && c.w == a.w);
        assert(a.w * (a.h + b.h) == a.w * a.h + b.w * b.h) by (nonlinear_arith)
            requires
                a.w == b.w,
        ;
    }
    assert(c.w * c.h <= a.w * a.h + b.w * b.h);
    assert(any_merge(seq![a], b)) by {
        assert(should_merge(seq![a][0], b));
    }
    assert(spec_request(seq![a], b) =~= seq![a.spec_container(b)]);
}

/// A display's back buffer after the paint-order entries are
/// composited into it back to front, restricted to the screen region
/// `rect`: the entry at the front of the list paints last and so ends
/// up on top. An entry whose id no longer names a window paints
/// nothing.
pub open spec fn spec_draw_entries(
    entries: Seq<ZBufferEntry>,
    windows: Seq<Window>,
    img: ImageView,
    dx: int,
    dy: int,
    rect: Rect,
) -> ImageView
    decreases entries.len(),
{
    if entries.len() == 0 {
        img
    } else {
        let prior = spec_draw_entries(entries.skip(1), windows, img, dx, dy, rect);
        if table_has(windows, entries[0].0) {
            table_window(windows, entries[0].0).spec_draw(prior, dx, dy, rect)
        } else {
            prior
        }
    }
}

/// Compositing entries into a surface never changes its extent.
pub proof fn lemma_draw_entries_dims(
    entries: Seq<ZBufferEntry>,
    windows: Seq<Window>,
    img: ImageView,
    dx: int,
    dy: int,
    rect: Rect,
)
    ensures
        spec_draw_entries(entries, windows, img, dx, dy, rect).w == img.w,
        spec_draw_entries(entries, windows, img, dx, dy, rect).h == img.h,
        spec_draw_entries(entries, windows, img, dx, dy, rect).data.len() == img.data.len(),
    decreases entries.len(),
{
    if entries.len() > 0 {
        lemma_draw_entries_dims(entries.skip(1), windows, img, dx, dy, rect);
    }
}

/// A display's back buffer after one damage rectangle is composited:
/// where the damage touches the display, every window is painted back
/// to front and the cursor is blended on top.
pub open spec fn spec_composite_rect(
    entries: Seq<ZBufferEntry>,
    windows: Seq<Window>,
    crect: Rect,
    cimg: ImageView,
    dpx: i32,
    dpy: i32,
    img: ImageView,
    rect: Rect,
) -> ImageView {
    let screen = Rect { x: dpx, y: dpy, w: img.w as i32, h: img.h as i32 };
    let r = rect.spec_intersection(screen);
    let after = if !r.spec_is_empty() {
        spec_draw_entries(entries, windows, img, dpx as int, dpy as int, r)
    } else {
        img
    };
    let ci = r.spec_intersection(crect);
    if !ci.spec_is_empty() {
        after.blend_rect(
            ci.spec_offset(-dpx as int, -dpy as int),
            cimg,
            ci.spec_offset(-crect.x as int, -crect.y as int),
        )
    } else {
        after
    }
}

/// A display's back buffer after a list of damage rectangles is
/// composited, first rectangle first.
pub open spec fn spec_composite_damage(
    damage: Seq<Rect>,
    entries: Seq<ZBufferEntry>,
    windows: Seq<Window>,
    crect: Rect,
    cimg: ImageView,
    dpx: i32,
    dpy: i32,
    img: ImageView,
) -> ImageView
    decreases damage.len(),
{
    if damage.len() == 0 {
        img
    } else {
        spec_composite_damage(
            damage.skip(1),
            entries,
            windows,
            crect,
            cimg,
            dpx,
            dpy,
            spec_composite_rect(entries, windows, crect, cimg, dpx, dpy, img, damage[0]),
        )
    }
}

/// Compositing one more damage rectangle composites it after all the
/// earlier ones.
pub proof fn lemma_composite_damage_snoc(
    damage: Seq<Rect>,
    r: Rect,
    entries: Seq<ZBufferEntry>,
    windows: Seq<Window>,
    crect: Rect,
    cimg: ImageView,
    dpx: i32,
    dpy: i32,
    img: ImageView,
)
    ensures
        spec_composite_damage(damage.push(r), entries, windows, crect, cimg, dpx, dpy, img)
            == spec_composite_rect(
            entries,
            windows,
            crect,
            cimg,
            dpx,
            dpy,
            spec_composite_damage(damage, entries, windows, crect, cimg, dpx, dpy, img),
            r,
        ),
    decreases damage.len(),
{
    reveal_with_fuel(spec_composite_damage, 3);
    if damage.len() == 0 {
        assert(damage.push(r).skip(1) =~= Seq::<Rect>::empty());
        assert(damage.push(r)[0] == r);
    } else {
        assert(damage.push(r).skip(1) =~= damage.skip(1).push(r));
        assert(damage.push(r)[0] == damage[0]);
        lemma_composite_damage_snoc(
            damage.skip(1),
            r,
            entries,
            windows,
            crect,
            cimg,
            dpx,
            dpy,
            spec_composite_rect(entries, windows, crect, cimg, dpx, dpy, img, damage[0]),
        );
    }
}

/// The cumulative dirty rectangle after folding a damage list into an
/// accumulator: each non-empty rectangle grows the accumulator to
/// their container.
pub open spec fn spec_total_from(damage: Seq<Rect>, acc: Option<Rect>) -> Option<Rect>
    decreases damage.len(),
{
    if damage.len() == 0 {
        acc
    } else {
        let acc2 = if !damage[0].spec_is_empty() {
            match acc {
                Option::Some(t) => Option::Some(t.spec_container(damage[0])),
                Option::None => Option::Some(damage[0]),
            }
        } else {
            acc
        };
        spec_total_from(damage.skip(1), acc2)
    }
}

/// The cumulative dirty rectangle of a damage list: the container of
/// all its non-empty rectangles, or nothing when every rectangle is
/// empty.
pub open spec fn spec_total_dirty(damage: Seq<Rect>) -> Option<Rect> {
    spec_total_from(damage, Option::None)
}

/// Folding one more rectangle folds it after all the earlier ones.
pub proof fn lemma_total_from_snoc(damage: Seq<Rect>, r: Rect, acc: Option<Rect>)
    ensures
        spec_total_from(damage.push(r), acc) == (if !r.spec_is_empty() {
            match spec_total_from(damage, acc) {
                Option::Some(t) => Option::Some(t.spec_container(r)),
                Option::None => Option::Some(r),
            }
        } else {
            spec_total_from(damage, acc)
        }),
    decreases damage.len(),
{
    reveal_with_fuel(spec_total_from, 3);
    if damage.len() == 0 {
        assert(damage.push(r).skip(1) =~= Seq::<Rect>::empty());
        assert(damage.push(r)[0] == r);
    } else {
        assert(damage.push(r).skip(1) =~= damage.skip(1).push(r));
        assert(damage.push(r)[0] == damage[0]);
        let acc2 = if !damage[0].spec_is_empty() {
            match acc {
                Option::Some(t) => Option::Some(t.spec_container(damage[0])),
                Option::None => Option::Some(damage[0]),
            }
        } else {
            acc
        };
        lemma_total_from_snoc(damage.skip(1), r, acc2);
    }
}

/// The entry at the front of the paint order paints last: when it
/// names an opaque window that covers a pixel inside the composited
/// region, that window's own pixel is what the region shows there,
/// whatever was painted below.
pub proof fn lemma_top_entry_pixel(
    entries: Seq<ZBufferEntry>,
    windows: Seq<Window>,
    img: ImageView,
    dx: int,
    dy: int,
    rect: Rect,
    px: int,
    py: int,
)
    requires
        entries.len() > 0,
        table_has(windows, entries[0].0),
        table_window(windows, entries[0].0).wf(),
        !table_window(windows, entries[0].0).transparent,
        table_window(windows, entries[0].0).spec_rect().covers(px, py),
        rect.wf(),
        rect.covers(px, py),
        img.wf(),
        0 <= px - dx < img.w,
        0 <= py - dy < img.h,
    ensures
        ({
            let w = table_window(windows, entries[0].0);
            spec_draw_entries(entries, windows, img, dx, dy, rect).pix(px - dx, py - dy)
                == w.image@.pix(px - w.x, py - w.y)
        }),
{
    let w = table_window(windows, entries[0].0);
    let prior = spec_draw_entries(entries.skip(1), windows, img, dx, dy, rect);
    lemma_draw_entries_dims(entries.skip(1), windows, img, dx, dy, rect);
    let inter = w.spec_rect().spec_intersection(rect);
    crate::rect::lemma_intersection_covers(w.spec_rect(), rect);
    assert(inter.covers(px, py));
    assert(!inter.spec_is_empty());
    let d = inter.spec_offset(-dx, -dy);
    let s = inter.spec_offset(-w.x as int, -w.y as int);
    crate::image::lemma_cover_rect_pix(prior, d, w.image@, s, px - dx, py - dy);
    assert(d.x <= px - dx < d.x + min(d.w as int, s.w as int));
    assert(d.y <= py - dy < d.y + min(d.h as int, s.h as int));
}

/// When exactly one window has the front class, it heads the paint
/// order, whenever it was created.
pub proof fn lemma_front_entry_first(wm: WindowManager, fid: usize)
    requires
        wm.wf(),
        wm.spec_has_window(fid),
        wm.spec_window(fid).zorder == WindowZOrderMode::Front,
        forall|j: int|
            0 <= j < wm.windows@.len() && (#[trigger] wm.windows@[j]).id != fid
                ==> wm.windows@[j].zorder != WindowZOrderMode::Front,
    ensures
        wm.spec_zbuffer().len() > 0,
        wm.spec_zbuffer()[0].0 == fid,
{
    let all = wm.spec_zorder_entries();
    let wins = wm.windows@;
    let wj = table_index(wins, fid);
    assert(wins.contains(wins[wj])) by {
        assert(wins[wj] == wins[wj]);
    }
    assert(wm.order@.contains(fid)) by {
        assert(wins[wj].id == fid);
    }
    let k0 = choose|k: int| 0 <= k < wm.order@.len() && wm.order@[k] == fid;
    assert(all[k0].0 == fid && all[k0].1 == WindowZOrderMode::Front);
    assert forall|k: int| 0 <= k < all.len() && k != k0 implies (#[trigger] all[k]).1
        != WindowZOrderMode::Front by {
        let id = wm.order@[k];
        if id == fid {
            assert(wm.order@[k] == wm.order@[k0]);
            assert(false);
        } else {
            let j = table_index(wins, id);
            assert(0 <= j < wins.len() && wins[j].id == id);
            assert(wins[j].zorder != WindowZOrderMode::Front);
        }
    }
    lemma_filter_class_single(all, WindowZOrderMode::Front, k0);
    assert(wm.spec_zbuffer()[0] == all[k0]);
}

/// With no front-class window present, the window at the head of the
/// creation order — the most recently created of the front-inserted
/// classes — heads the paint order.
pub proof fn lemma_recent_entry_first(wm: WindowManager)
    requires
        wm.wf(),
        wm.order@.len() > 0,
        forall|j: int|
            0 <= j < wm.windows@.len() ==> (#[trigger] wm.windows@[j]).zorder
                != WindowZOrderMode::Front,
        wm.spec_window(wm.order@[0]).zorder == WindowZOrderMode::Normal,
    ensures
        wm.spec_zbuffer().len() > 0,
        wm.spec_zbuffer()[0].0 == wm.order@[0],
{
    let all = wm.spec_zorder_entries();
    let wins = wm.windows@;
    assert forall|k: int| 0 <= k < all.len() implies (#[trigger] all[k]).1
        != WindowZOrderMode::Front by {
        let id = wm.order@[k];
        let j = table_index(wins, id);
        assert(0 <= j < wins.len() && wins[j].id == id);
    }
    lemma_filter_class_none(all, WindowZOrderMode::Front);
    assert(all[0].1 == WindowZOrderMode::Normal);
    lemma_filter_class_first(all, WindowZOrderMode::Normal);
    assert(wm.spec_zbuffer() =~= filter_class(all, WindowZOrderMode::Normal) + filter_class(
        all,
        WindowZOrderMode::Back,
    ));
    assert(wm.spec_zbuffer()[0] == all[0]);
}

/// Compositing order across classes: when exactly one window has the
/// front class, it heads the paint order — whenever it was created —
/// and, if it is opaque, its own pixel is what every composited region
/// it covers shows, whatever windows of the other classes overlap it.
pub proof fn lemma_front_class_wins(
    wm: WindowManager,
    fid: usize,
    img: ImageView,
    dx: int,
    dy: int,
    rect: Rect,
    px: int,
    py: int,
)
    requires
        wm.wf(),
        wm.spec_has_window(fid),
        wm.spec_window(fid).zorder == WindowZOrderMode::Front,
        forall|j: int|
            0 <= j < wm.windows@.len() && (#[trigger] wm.windows@[j]).id != fid
                ==> wm.windows@[j].zorder != WindowZOrderMode::Front,
        !wm.spec_window(fid).transparent,
        wm.spec_window(fid).spec_rect().covers(px, py),
        rect.wf(),
        rect.covers(px, py),
        img.wf(),
        0 <= px - dx < img.w,
        0 <= py - dy < img.h,
    ensures
        wm.spec_zbuffer().len() > 0,
        wm.spec_zbuffer()[0].0 == fid,
        ({
            let w = wm.spec_window(fid);
            spec_draw_entries(wm.spec_zbuffer(), wm.windows@, img, dx, dy, rect).pix(
                px - dx,
                py - dy,
            ) == w.image@.pix(px - w.x, py - w.y)
        }),
{
    lemma_front_entry_first(wm, fid);
    lemma_top_entry_pixel(wm.spec_zbuffer(), wm.windows@, img, dx, dy, rect, px, py);
}

/// Compositing order within a class: with no front-class window
/// present, the window at the head of the creation order — the most
/// recently created of its class, since new windows enter at the
/// front — heads the paint order; if it is opaque, its own pixel is
/// what every composited region it covers shows, whatever windows
/// created earlier overlap it.
pub proof fn lemma_recent_window_wins(
    wm: WindowManager,
    img: ImageView,
    dx: int,
    dy: int,
    rect: Rect,
    px: int,
    py: int,
)
    requires
        wm.wf(),
        wm.order@.len() > 0,
        forall|j: int|
            0 <= j < wm.windows@.len() ==> (#[trigger] wm.windows@[j]).zorder
                != WindowZOrderMode::Front,
        wm.spec_window(wm.order@[0]).zorder == WindowZOrderMode::Normal,
        !wm.spec_window(wm.order@[0]).transparent,
        wm.spec_window(wm.order@[0]).spec_rect().covers(px, py),
        rect.wf(),
        rect.covers(px, py),
        img.wf(),
        0 <= px - dx < img.w,
        0 <= py - dy < img.h,
    ensures
        wm.spec_zbuffer().len() > 0,
        wm.spec_zbuffer()[0].0 == wm.order@[0],
        ({
            let w = wm.spec_window(wm.order@[0]);
            spec_draw_entries(wm.spec_zbuffer(), wm.windows@, img, dx, dy, rect).pix(
                px - dx,
                py - dy,
            ) == w.image@.pix(px - w.x, py - w.y)
        }),
{
    lemma_recent_entry_first(wm);
    assert(table_has(wm.windows@, wm.order@[0]));
    lemma_top_entry_pixel(wm.spec_zbuffer(), wm.windows@, img, dx, dy, rect, px, py);
}

/// The head of the paint order decides a composited pixel: wherever a
/// damage rectangle is composited onto a display, a pixel that the
/// paint order's front entry covers with an opaque window — and the
/// cursor does not cover — shows that window's own pixel in the
/// display's back buffer.
pub proof fn lemma_composite_rect_top_pixel(
    entries: Seq<ZBufferEntry>,
    windows: Seq<Window>,
    crect: Rect,
    cimg: ImageView,
    dpx: i32,
    dpy: i32,
    img: ImageView,
    rect: Rect,
    px: int,
    py: int,
)
    requires
        entries.len() > 0,
        table_has(windows, entries[0].0),
        table_window(windows, entries[0].0).wf(),
        !table_window(windows, entries[0].0).transparent,
        table_window(windows, entries[0].0).spec_rect().covers(px, py),
        rect.wf(),
        rect.covers(px, py),
        crect.wf(),
        !crect.covers(px, py),
        img.wf(),
        (Rect { x: dpx, y: dpy, w: img.w as i32, h: img.h as i32 }).wf(),
        dpx <= px < dpx + img.w,
        dpy <= py < dpy + img.h,
    ensures
        ({
            let w = table_window(windows, entries[0].0);
            spec_composite_rect(entries, windows, crect, cimg, dpx, dpy, img, rect).pix(
                px - dpx,
                py - dpy,
            ) == w.image@.pix(px - w.x, py - w.y)
        }),
{
    let w = table_window(windows, entries[0].0);
    let screen = Rect { x: dpx, y: dpy, w: img.w as i32, h: img.h as i32 };
    let r = rect.spec_intersection(screen);
    crate::rect::lemma_intersection_wf(rect, screen);
    crate::rect::lemma_intersection_covers(rect, screen);
    assert(screen.covers(px, py));
    assert(r.covers(px, py));
    assert(!r.spec_is_empty());
    let after = spec_draw_entries(entries, windows, img, dpx as int, dpy as int, r);
    lemma_top_entry_pixel(entries, windows, img, dpx as int, dpy as int, r, px, py);
    lemma_draw_entries_dims(entries, windows, img, dpx as int, dpy as int, r);
    let ci = r.spec_intersection(crect);
    crate::rect::lemma_intersection_covers(r, crect);
    assert(!ci.covers(px, py));
    if !ci.spec_is_empty() {
        crate::rect::lemma_intersection_in_both(r, crect);
        let d = ci.spec_offset(-dpx as int, -dpy as int);
        let s = ci.spec_offset(-crect.x as int, -crect.y as int);
        crate::image::lemma_blend_rect_pix(after, d, cimg, s, px - dpx, py - dpy);
        assert(!(d.x <= px - dpx < d.x + min(d.w as int, s.w as int) && d.y <= py - dpy < d.y
            + min(d.h as int, s.h as int)));
    }
}

/// Compositing a region never touches a pixel outside it: wherever the
/// damage rectangle does not reach, every window pass leaves the
/// surface alone.
pub proof fn lemma_draw_entries_outside(
    entries: Seq<ZBufferEntry>,
    windows: Seq<Window>,
    img: ImageView,
    dx: int,
    dy: int,
    rect: Rect,
    px: int,
    py: int,
)
    requires
        forall|j: int| 0 <= j < windows.len() ==> (#[trigger] windows[j]).wf(),
        rect.wf(),
        !rect.covers(px, py),
        img.wf(),
        -COORD_MAX <= dx <= COORD_MAX,
        -COORD_MAX <= dy <= COORD_MAX,
        0 <= px - dx < img.w,
        0 <= py - dy < img.h,
    ensures
        spec_draw_entries(entries, windows, img, dx, dy, rect).pix(px - dx, py - dy) == img.pix(
            px - dx,
            py - dy,
        ),
    decreases entries.len(),
{
    if entries.len() > 0 {
        lemma_draw_entries_outside(entries.skip(1), windows, img, dx, dy, rect, px, py);
        lemma_draw_entries_dims(entries.skip(1), windows, img, dx, dy, rect);
        let prior = spec_draw_entries(entries.skip(1), windows, img, dx, dy, rect);
        if table_has(windows, entries[0].0) {
            let w = table_window(windows, entries[0].0);
            assert(w.wf()) by {
                let j = table_index(windows, entries[0].0);
                assert(windows[j].wf());
            }
            let inter = w.spec_rect().spec_intersection(rect);
            crate::rect::lemma_intersection_covers(w.spec_rect(), rect);
            assert(!inter.covers(px, py));
            if !inter.spec_is_empty() {
                crate::rect::lemma_intersection_in_both(w.spec_rect(), rect);
                let d = inter.spec_offset(-dx, -dy);
                let s = inter.spec_offset(-w.x as int, -w.y as int);
                if w.transparent {
                    crate::image::lemma_blend_rect_pix(prior, d, w.image@, s, px - dx, py - dy);
                } else {
                    crate::image::lemma_cover_rect_pix(prior, d, w.image@, s, px - dx, py - dy);
                }
                assert(!(d.x <= px - dx < d.x + min(d.w as int, s.w as int) && d.y <= py - dy
                    < d.y + min(d.h as int, s.h as int)));
            }
        }
    }
}

/// A pixel no window covers is never painted by the window passes,
/// whatever the damage region.
pub proof fn lemma_draw_entries_uncovered(
    entries: Seq<ZBufferEntry>,
    windows: Seq<Window>,
    img: ImageView,
    dx: int,
    dy: int,
    rect: Rect,
    px: int,
    py: int,
)
    requires
        forall|j: int| 0 <= j < windows.len() ==> (#[trigger] windows[j]).wf(),
        forall|j: int|
            0 <= j < windows.len() ==> !(#[trigger] windows[j]).spec_rect().covers(px, py),
        rect.wf(),
        img.wf(),
        -COORD_MAX <= dx <= COORD_MAX,
        -COORD_MAX <= dy <= COORD_MAX,
        0 <= px - dx < img.w,
        0 <= py - dy < img.h,
    ensures
        spec_draw_entries(entries, windows, img, dx, dy, rect).pix(px - dx, py - dy) == img.pix(
            px - dx,
            py - dy,
        ),
    decreases entries.len(),
{
    if entries.len() > 0 {
        lemma_draw_entries_uncovered(entries.skip(1), windows, img, dx, dy, rect, px, py);
        lemma_draw_entries_dims(entries.skip(1), windows, img, dx, dy, rect);
        let prior = spec_draw_entries(entries.skip(1), windows, img, dx, dy, rect);
        if table_has(windows, entries[0].0) {
            let w = table_window(windows, entries[0].0);
            assert(w.wf() && !w.spec_rect().covers(px, py)) by {
                let j = table_index(windows, entries[0].0);
                assert(windows[j].wf());
                assert(!windows[j].spec_rect().covers(px, py));
            }
            let inter = w.spec_rect().spec_intersection(rect);
            crate::rect::lemma_intersection_covers(w.spec_rect(), rect);
            assert(!inter.covers(px, py));
            if !inter.spec_is_empty() {
                crate::rect::lemma_intersection_in_both(w.spec_rect(), rect);
                let d = inter.spec_offset(-dx, -dy);
                let s = inter.spec_offset(-w.x as int, -w.y as int);
                if w.transparent {
                    crate::image::lemma_blend_rect_pix(prior, d, w.image@, s, px - dx, py - dy);
                } else {
                    crate::image::lemma_cover_rect_pix(prior, d, w.image@, s, px - dx, py - dy);
                }
                assert(!(d.x <= px - dx < d.x + min(d.w as int, s.w as int) && d.y <= py - dy
                    < d.y + min(d.h as int, s.h as int)));
            }
        }
    }
}

/// Compositing one damage rectangle never changes a surface's extent.
pub proof fn lemma_composite_rect_dims(
    entries: Seq<ZBufferEntry>,
    windows: Seq<Window>,
    crect: Rect,
    cimg: ImageView,
    dpx: i32,
    dpy: i32,
    img: ImageView,
    rect: Rect,
)
    ensures
        spec_composite_rect(entries, windows, crect, cimg, dpx, dpy, img, rect).w == img.w,
        spec_composite_rect(entries, windows, crect, cimg, dpx, dpy, img, rect).h == img.h,
        spec_composite_rect(entries, windows, crect, cimg, dpx, dpy, img, rect).data.len()
            == img.data.len(),
{
    let screen = Rect { x: dpx, y: dpy, w: img.w as i32, h: img.h as i32 };
    let r = rect.spec_intersection(screen);
    lemma_draw_entries_dims(entries, windows, img, dpx as int, dpy as int, r);
}

/// The part a composited damage rectangle plays at one pixel it does
/// not cover: none, as long as the cursor stays away too.
pub proof fn lemma_composite_rect_untouched(
    entries: Seq<ZBufferEntry>,
    windows: Seq<Window>,
    crect: Rect,
    cimg: ImageView,
    dpx: i32,
    dpy: i32,
    img: ImageView,
    rect: Rect,
    px: int,
    py: int,
)
    requires
        forall|j: int| 0 <= j < windows.len() ==> (#[trigger] windows[j]).wf(),
        rect.wf(),
        crect.wf(),
        !crect.covers(px, py),
        !rect.covers(px, py) || forall|j: int|
            0 <= j < windows.len() ==> !(#[trigger] windows[j]).spec_rect().covers(px, py),
        img.wf(),
        (Rect { x: dpx, y: dpy, w: img.w as i32, h: img.h as i32 }).wf(),
        dpx <= px < dpx + img.w,
        dpy <= py < dpy + img.h,
    ensures
        spec_composite_rect(entries, windows, crect, cimg, dpx, dpy, img, rect).pix(
            px - dpx,
            py - dpy,
        ) == img.pix(px - dpx, py - dpy),
{
    let screen = Rect { x: dpx, y: dpy, w: img.w as i32, h: img.h as i32 };
    let r = rect.spec_intersection(screen);
    crate::rect::lemma_intersection_wf(rect, screen);
    crate::rect::lemma_intersection_covers(rect, screen);
    let after = if !r.spec_is_empty() {
        spec_draw_entries(entries, windows, img, dpx as int, dpy as int, r)
    } else {
        img
    };
    lemma_draw_entries_dims(entries, windows, img, dpx as int, dpy as int, r);
    if !r.spec_is_empty() {
        if !rect.covers(px, py) {
            assert(!r.covers(px, py));
            lemma_draw_entries_outside(entries, windows, img, dpx as int, dpy as int, r, px, py);
        } else {
            lemma_draw_entries_uncovered(entries, windows, img, dpx as int, dpy as int, r, px, py);
        }
    }
    let ci = r.spec_intersection(crect);
    crate::rect::lemma_intersection_covers(r, crect);
    assert(!ci.covers(px, py));
    if !ci.spec_is_empty() {
        crate::rect::lemma_intersection_in_both(r, crect);
        let d = ci.spec_offset(-dpx as int, -dpy as int);
        let s = ci.spec_offset(-crect.x as int, -crect.y as int);
        crate::image::lemma_blend_rect_pix(after, d, cimg, s, px - dpx, py - dpy);
        assert(!(d.x <= px - dpx < d.x + min(d.w as int, s.w as int) && d.y <= py - dpy < d.y
            + min(d.h as int, s.h as int)));
    }
}

/// The head of the paint order decides a pixel across a whole redraw
/// cycle: when the front entry names an opaque window covering a pixel
/// the cursor stays away from, compositing any damage list that
/// reaches the pixel leaves that window's own value there, and a
/// damage list that never reaches it leaves it untouched.
pub proof fn lemma_composite_damage_top_pixel(
    damage: Seq<Rect>,
    entries: Seq<ZBufferEntry>,
    windows: Seq<Window>,
    crect: Rect,
    cimg: ImageView,
    dpx: i32,
    dpy: i32,
    img: ImageView,
    px: int,
    py: int,
)
    requires
        entries.len() > 0,
        table_has(windows, entries[0].0),
        table_window(windows, entries[0].0).wf(),
        !table_window(windows, entries[0].0).transparent,
        table_window(windows, entries[0].0).spec_rect().covers(px, py),
        forall|j: int| 0 <= j < windows.len() ==> (#[trigger] windows[j]).wf(),
        damage_wf(damage),
        crect.wf(),
        !crect.covers(px, py),
        img.wf(),
        (Rect { x: dpx, y: dpy, w: img.w as i32, h: img.h as i32 }).wf(),
        dpx <= px < dpx + img.w,
        dpy <= py < dpy + img.h,
    ensures
        ({
            let w = table_window(windows, entries[0].0);
            spec_composite_damage(damage, entries, windows, crect, cimg, dpx, dpy, img).pix(
                px - dpx,
                py - dpy,
            ) == if damage_covers(damage, px, py) {
                w.image@.pix(px - w.x, py - w.y)
            } else {
                img.pix(px - dpx, py - dpy)
            }
        }),
    decreases damage.len(),
{
    let w = table_window(windows, entries[0].0);
    if damage.len() == 0 {
        assert(!damage_covers(damage, px, py));
    } else {
        let first = damage[0];
        let img1 = spec_composite_rect(entries, windows, crect, cimg, dpx, dpy, img, first);
        lemma_composite_rect_dims(entries, windows, crect, cimg, dpx, dpy, img, first);
        assert(img1.wf());
        assert(damage_wf(damage.skip(1))) by {
            assert forall|k: int|
                0 <= k < damage.skip(1).len() implies (#[trigger] damage.skip(1)[k]).wf() by {
                assert(damage.skip(1)[k] == damage[k + 1]);
            }
        }
        lemma_composite_damage_top_pixel(
            damage.skip(1),
            entries,
            windows,
            crect,
            cimg,
            dpx,
            dpy,
            img1,
            px,
            py,
        );
        if first.covers(px, py) {
            lemma_composite_rect_top_pixel(
                entries,
                windows,
                crect,
                cimg,
                dpx,
                dpy,
                img,
                first,
                px,
                py,
            );
            assert(img1.pix(px - dpx, py - dpy) == w.image@.pix(px - w.x, py - w.y));
            assert(damage_covers(damage, px, py)) by {
                assert(damage[0].covers(px, py));
            }
        } else {
            lemma_composite_rect_untouched(
                entries,
                windows,
                crect,
                cimg,
                dpx,
                dpy,
                img,
                first,
                px,
                py,
            );
            assert(img1.pix(px - dpx, py - dpy) == img.pix(px - dpx, py - dpy));
            assert(damage_covers(damage, px, py) == damage_covers(damage.skip(1), px, py)) by {
                if damage_covers(damage, px, py) {
                    let k = choose|k: int|
                        0 <= k < damage.len() && (#[trigger] damage[k]).covers(px, py);
                    assert(k != 0);
                    assert(damage.skip(1)[k - 1] == damage[k]);
                    assert(damage_covers(damage.skip(1), px, py));
                }
                if damage_covers(damage.skip(1), px, py) {
                    let k = choose|k: int|
                        0 <= k < damage.skip(1).len() && (#[trigger] damage.skip(1)[k]).covers(
                            px,
                            py,
                        );
                    assert(damage.skip(1)[k] == damage[k + 1]);
                    assert(damage_covers(damage, px, py));
                }
            }
        }
    }
}

/// A pixel that no window covers and the cursor stays away from keeps
/// its value across a whole redraw cycle, whatever the damage list:
/// the unchanged background stays the background.
pub proof fn lemma_composite_damage_uncovered(
    damage: Seq<Rect>,
    entries: Seq<ZBufferEntry>,
    windows: Seq<Window>,
    crect: Rect,
    cimg: ImageView,
    dpx: i32,
    dpy: i32,
    img: ImageView,
    px: int,
    py: int,
)
    requires
        forall|j: int| 0 <= j < windows.len() ==> (#[trigger] windows[j]).wf(),
        forall|j: int|
            0 <= j < windows.len() ==> !(#[trigger] windows[j]).spec_rect().covers(px, py),
        damage_wf(damage),
        crect.wf(),
        !crect.covers(px, py),
        img.wf(),
        (Rect { x: dpx, y: dpy, w: img.w as i32, h: img.h as i32 }).wf(),
        dpx <= px < dpx + img.w,
        dpy <= py < dpy + img.h,
    ensures
        spec_composite_damage(damage, entries, windows, crect, cimg, dpx, dpy, img).pix(
            px - dpx,
            py - dpy,
        ) == img.pix(px - dpx, py - dpy),
    decreases damage.len(),
{
    if damage.len() > 0 {
        let first = damage[0];
        let img1 = spec_composite_rect(entries, windows, crect, cimg, dpx, dpy, img, first);
        lemma_composite_rect_dims(entries, windows, crect, cimg, dpx, dpy, img, first);
        lemma_composite_rect_untouched(
            entries,
            windows,
            crect,
            cimg,
            dpx,
            dpy,
            img,
            first,
            px,
            py,
        );
        assert(damage_wf(damage.skip(1))) by {
            assert forall|k: int|
                0 <= k < damage.skip(1).len() implies (#[trigger] damage.skip(1)[k]).wf() by {
                assert(damage.skip(1)[k] == damage[k + 1]);
            }
        }
        lemma_composite_damage_uncovered(
            damage.skip(1),
            entries,
            windows,
            crect,
            cimg,
            dpx,
            dpy,
            img1,
            px,
            py,
        );
    }
}

/// Compositing order across classes, over a whole redraw cycle: the
/// sole front-class window, if opaque, decides every damaged pixel it
/// covers — whatever its creation order, the damage list, or the
/// windows of the lower classes — wherever the cursor stays away.
pub proof fn lemma_damage_front_class_wins(
    wm: WindowManager,
    fid: usize,
    damage: Seq<Rect>,
    crect: Rect,
    cimg: ImageView,
    dpx: i32,
    dpy: i32,
    img: ImageView,
    px: int,
    py: int,
)
    requires
        wm.wf(),
        wm.spec_has_window(fid),
        wm.spec_window(fid).zorder == WindowZOrderMode::Front,
        forall|j: int|
            0 <= j < wm.windows@.len() && (#[trigger] wm.windows@[j]).id != fid
                ==> wm.windows@[j].zorder != WindowZOrderMode::Front,
        !wm.spec_window(fid).transparent,
        wm.spec_window(fid).spec_rect().covers(px, py),
        damage_wf(damage),
        damage_covers(damage, px, py),
        crect.wf(),
        !crect.covers(px, py),
        img.wf(),
        (Rect { x: dpx, y: dpy, w: img.w as i32, h: img.h as i32 }).wf(),
        dpx <= px < dpx + img.w,
        dpy <= py < dpy + img.h,
    ensures
        ({
            let w = wm.spec_window(fid);
            spec_composite_damage(
                damage,
                wm.spec_zbuffer(),
                wm.windows@,
                crect,
                cimg,
                dpx,
                dpy,
                img,
            ).pix(px - dpx, py - dpy) == w.image@.pix(px - w.x, py - w.y)
        }),
{
    lemma_front_entry_first(wm, fid);
    lemma_composite_damage_top_pixel(
        damage,
        wm.spec_zbuffer(),
        wm.windows@,
        crect,
        cimg,
        dpx,
        dpy,
        img,
        px,
        py,
    );
}

/// Compositing order within a class, over a whole redraw cycle: with
/// no front-class window, the most recently created window — the head
/// of the creation order — decides every damaged pixel it covers, if
/// it is opaque, wherever the cursor stays away.
pub proof fn lemma_damage_recent_window_wins(
    wm: WindowManager,
    damage: Seq<Rect>,
    crect: Rect,
    cimg: ImageView,
    dpx: i32,
    dpy: i32,
    img: ImageView,
    px: int,
    py: int,
)
    requires
        wm.wf(),
        wm.order@.len() > 0,
        forall|j: int|
            0 <= j < wm.windows@.len() ==> (#[trigger] wm.windows@[j]).zorder
                != WindowZOrderMode::Front,
        wm.spec_window(wm.order@[0]).zorder == WindowZOrderMode::Normal,
        !wm.spec_window(wm.order@[0]).transparent,
        wm.spec_window(wm.order@[0]).spec_rect().covers(px, py),
        damage_wf(damage),
        damage_covers(damage, px, py),
        crect.wf(),
        !crect.covers(px, py),
        img.wf(),
        (Rect { x: dpx, y: dpy, w: img.w as i32, h: img.h as i32 }).wf(),
        dpx <= px < dpx + img.w,
        dpy <= py < dpy + img.h,
    ensures
        ({
            let w = wm.spec_window(wm.order@[0]);
            spec_composite_damage(
                damage,
                wm.spec_zbuffer(),
                wm.windows@,
                crect,
                cimg,
                dpx,
                dpy,
                img,
            ).pix(px - dpx, py - dpy) == w.image@.pix(px - w.x, py - w.y)
        }),
{
    lemma_recent_entry_first(wm);
    assert(table_has(wm.windows@, wm.order@[0]));
    lemma_composite_damage_top_pixel(
        damage,
        wm.spec_zbuffer(),
        wm.windows@,
        crect,
        cimg,
        dpx,
        dpy,
        img,
        px,
        py,
    );
}

} // verus!
