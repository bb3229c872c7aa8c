//! The window manager: the authoritative window table, the creation
//! order, the derived paint order ("zbuffer"), the cursor state and the
//! pending input events.

use vstd::prelude::*;
use vstd::math::{max, min};
use crate::compositor::{damage_covers, spec_request, Compositor};
use crate::event::{Event, EventOption, MouseRelativeEvent, MouseUpdateEvent};
use crate::image::Image;
use crate::rect::{Rect, COORD_MAX};
use crate::server::{CursorKind, StarryServer};
use crate::window::{Window, WindowZOrderMode};
use crate::{SCREEN_HEIGHT, SCREEN_WIDTH};

verus! {

/// One paint-order entry: a window id, its stacking class, and the
/// position the window holds in the creation-order list.
pub type ZBufferEntry = (usize, WindowZOrderMode, usize);

/// The cursor's position and look, as specifications track it.
pub struct CursorState {
    /// x coordinate of the cursor's top-left corner.
    pub x: int,
    /// y coordinate of the cursor's top-left corner.
    pub y: int,
    /// Which image the cursor is drawn with.
    pub kind: CursorKind,
}

/// `v` clamped into `[lo, hi]`.
pub open spec fn spec_clamp(v: int, lo: int, hi: int) -> int {
    max(lo, min(hi, v))
}

/// The screen region the cursor covers: its position extended by the
/// extent of the image its kind is drawn with.
pub open spec fn spec_cursor_rect_of(cs: CursorState, server: StarryServer) -> Rect {
    Rect {
        x: cs.x as i32,
        y: cs.y as i32,
        w: server.spec_cursor_image(cs.kind).w,
        h: server.spec_cursor_image(cs.kind).h,
    }
}

/// The cursor state and pending damage after an update to position
/// `(x, y)` and look `kind`: the position is clamped so the cursor
/// rectangle never leaves the screen; if nothing changed, nothing is
/// damaged; otherwise the regions of both the old and the new cursor
/// rectangle are damaged.
pub open spec fn spec_update_cursor(
    cs: CursorState,
    redraws: Seq<Rect>,
    server: StarryServer,
    x: int,
    y: int,
    kind: CursorKind,
) -> (CursorState, Seq<Rect>) {
    let img = server.spec_cursor_image(kind);
    let cx = spec_clamp(x, 0, SCREEN_WIDTH - img.w);
    let cy = spec_clamp(y, 0, SCREEN_HEIGHT - img.h);
    if kind == cs.kind && cx == cs.x && cy == cs.y {
        (cs, redraws)
    } else {
        let cs2 = CursorState { x: cx, y: cy, kind };
        (
            cs2,
            spec_request(
                spec_request(redraws, spec_cursor_rect_of(cs, server)),
                spec_cursor_rect_of(cs2, server),
            ),
        )
    }
}

/// Where a relative pointer motion lands before the cursor update
/// clamps it again: the current position moved by the delta — screen y
/// grows downward, so a positive device `dy` moves the cursor up — and
/// clamped against the current cursor rectangle.
pub open spec fn spec_pointer_target(
    cs: CursorState,
    server: StarryServer,
    e: MouseRelativeEvent,
) -> (int, int) {
    let crect = spec_cursor_rect_of(cs, server);
    (
        spec_clamp(cs.x + e.dx, 0, SCREEN_WIDTH - crect.w),
        spec_clamp(cs.y - e.dy, 0, SCREEN_HEIGHT - crect.h),
    )
}

/// The cursor state and pending damage after one event is dispatched:
/// pointer motion moves the cursor; button events and everything else
/// are accepted and ignored here.
pub open spec fn spec_handle_event(
    cs: CursorState,
    redraws: Seq<Rect>,
    server: StarryServer,
    event: Event,
) -> (CursorState, Seq<Rect>) {
    match event.spec_to_option() {
        EventOption::MouseRelative(e) => {
            let target = spec_pointer_target(cs, server, e);
            spec_update_cursor(cs, redraws, server, target.0, target.1, CursorKind::Normal)
        },
        _ => (cs, redraws),
    }
}

/// The cursor state and pending damage after the events `evs` are
/// dispatched, most recently queued first.
pub open spec fn spec_dispatch(
    cs: CursorState,
    redraws: Seq<Rect>,
    server: StarryServer,
    evs: Seq<Event>,
) -> (CursorState, Seq<Rect>)
    decreases evs.len(),
{
    if evs.len() == 0 {
        (cs, redraws)
    } else {
        let step = spec_handle_event(cs, redraws, server, evs.last());
        spec_dispatch(step.0, step.1, server, evs.drop_last())
    }
}

/// The window manager: the single authoritative owner of all windows
/// and of the cursor and input-event state.
pub struct WindowManager {
    /// The id the next created window receives.
    pub next_id: isize,
    /// Window ids in stacking order within each class: for the front
    /// classes new windows enter at the front, background windows at
    /// the back.
    pub order: Vec<usize>,
    /// The derived paint order, front-most first; stale until
    /// `rezbuffer` runs.
    pub zbuffer: Vec<ZBufferEntry>,
    /// The window table.
    pub windows: Vec<Window>,
    /// x coordinate of the cursor.
    pub cursor_x: i32,
    /// y coordinate of the cursor.
    pub cursor_y: i32,
    /// Which image the cursor is drawn with.
    pub cursor_i: CursorKind,
    /// Input events waiting to be dispatched.
    pub events: Vec<Event>,
}

/// Some window of the table carries the id.
pub open spec fn table_has(windows: Seq<Window>, id: usize) -> bool {
    exists|j: int| 0 <= j < windows.len() && (#[trigger] windows[j]).id == id
}

/// The table position of the window with the id.
pub open spec fn table_index(windows: Seq<Window>, id: usize) -> int {
    choose|j: int| 0 <= j < windows.len() && (#[trigger] windows[j]).id == id
}

/// The window of the table that carries the id.
pub open spec fn table_window(windows: Seq<Window>, id: usize) -> Window {
    windows[table_index(windows, id)]
}

/// The window table and creation-order list are consistent: ids are
/// unique, the order list names each window exactly once, and every
/// window is well-formed.
pub open spec fn table_wf(order: Seq<usize>, windows: Seq<Window>) -> bool {
    &&& forall|i: int, j: int|
        0 <= i < j < windows.len() ==> (#[trigger] windows[i]).id != (#[trigger] windows[j]).id
    &&& forall|j: int| 0 <= j < windows.len() ==> (#[trigger] windows[j]).wf()
    &&& forall|k: int| 0 <= k < order.len() ==> table_has(windows, #[trigger] order[k])
    &&& forall|k: int, l: int| 0 <= k < l < order.len() ==> order[k] != order[l]
    &&& forall|j: int| 0 <= j < windows.len() ==> order.contains((#[trigger] windows[j]).id)
}

/// One paint-order entry per creation-order position, before sorting
/// by class.
pub open spec fn zorder_entries_of(order: Seq<usize>, windows: Seq<Window>) -> Seq<ZBufferEntry> {
    Seq::new(order.len(), |k: int| (order[k], table_window(windows, order[k]).zorder, k as usize))
}

/// The entries of one stacking class, in creation-order sequence.
pub open spec fn filter_class(s: Seq<ZBufferEntry>, z: WindowZOrderMode) -> Seq<ZBufferEntry> {
    s.filter(|e: ZBufferEntry| e.1 == z)
}

/// A window's table position pins down the index and window that the
/// id-based specifications denote.
pub proof fn lemma_table_window_at(windows: Seq<Window>, j: int)
    requires
        forall|i: int, l: int|
            0 <= i < l < windows.len() ==> (#[trigger] windows[i]).id != (
            #[trigger] windows[l]).id,
        0 <= j < windows.len(),
    ensures
        table_has(windows, windows[j].id),
        table_index(windows, windows[j].id) == j,
        table_window(windows, windows[j].id) == windows[j],
{
    let id = windows[j].id;
    assert(table_has(windows, id));
    let i = table_index(windows, id);
    assert(0 <= i < windows.len() && windows[i].id == id);
    if i < j {
        assert(windows[i].id != windows[j].id);
    } else if j < i {
        assert(windows[j].id != windows[i].id);
    }
}

impl WindowManager {
    /// Some window in the table has the id.
    pub open spec fn spec_has_window(self, id: usize) -> bool {
        table_has(self.windows@, id)
    }

    /// The window with the id.
    pub open spec fn spec_window(self, id: usize) -> Window {
        table_window(self.windows@, id)
    }

    /// The cursor state.
    pub open spec fn spec_cursor_state(self) -> CursorState {
        CursorState { x: self.cursor_x as int, y: self.cursor_y as int, kind: self.cursor_i }
    }

    /// The manager's invariant: the window table and order list are
    /// consistent, ids stay below the next id to assign, and the
    /// cursor stays on the screen.
    pub open spec fn wf(self) -> bool {
        &&& 0 <= self.next_id
        &&& forall|j: int|
            0 <= j < self.windows@.len() ==> (#[trigger] self.windows@[j]).id < self.next_id
        &&& table_wf(self.order@, self.windows@)
        &&& 0 <= self.cursor_x <= SCREEN_WIDTH as i32
        &&& 0 <= self.cursor_y <= SCREEN_HEIGHT as i32
    }

    /// One paint-order entry per creation-order position, before
    /// sorting by class.
    pub open spec fn spec_zorder_entries(self) -> Seq<ZBufferEntry> {
        zorder_entries_of(self.order@, self.windows@)
    }

    /// The paint order: every front window, then every normal window,
    /// then every background window, each class in creation-order
    /// sequence; painting walks it back to front.
    pub open spec fn spec_zbuffer(self) -> Seq<ZBufferEntry> {
        filter_class(self.spec_zorder_entries(), WindowZOrderMode::Front) + filter_class(
            self.spec_zorder_entries(),
            WindowZOrderMode::Normal,
        ) + filter_class(self.spec_zorder_entries(), WindowZOrderMode::Back)
    }

    /// Creates an empty window manager: no windows, the cursor parked
    /// at the screen's centre with the ordinary image.
    pub fn new() -> (wm: WindowManager)
        ensures
            wm.wf(),
            wm.next_id == 0,
            wm.order@ == Seq::<usize>::empty(),
            wm.zbuffer@ == Seq::<ZBufferEntry>::empty(),
            wm.windows@ == Seq::<Window>::empty(),
            wm.cursor_x == SCREEN_WIDTH as i32 / 2,
            wm.cursor_y == SCREEN_HEIGHT as i32 / 2,
            wm.cursor_i == CursorKind::Normal,
            wm.events@ == Seq::<Event>::empty(),
    {
        let wm = WindowManager {
            next_id: 0,
            order: Vec::new(),
            zbuffer: Vec::new(),
            windows: Vec::new(),
            cursor_x: SCREEN_WIDTH as i32 / 2,
            cursor_y: SCREEN_HEIGHT as i32 / 2,
            cursor_i: CursorKind::Normal,
            events: Vec::new(),
        };
        proof {
            assert(wm.order@ =~= Seq::<usize>::empty());
            assert(wm.zbuffer@ =~= Seq::<ZBufferEntry>::empty());
            assert(wm.windows@ =~= Seq::<Window>::empty());
            assert(wm.events@ =~= Seq::<Event>::empty());
        }
        wm
    }

    /// Finds the table position of the window with an id; a stale id
    /// finds nothing and is no error.
    pub fn window_position(&self, id: usize) -> (r: Option<usize>)
        ensures
            match r {
                Some(j) => 0 <= j < self.windows@.len() && self.windows@[j as int].id == id,
                None => !self.spec_has_window(id),
            },
    {
        let mut j: usize = 0;
        while j < self.windows.len()
            invariant
                0 <= j <= self.windows@.len(),
                forall|i: int| 0 <= i < j ==> (#[trigger] self.windows@[i]).id != id,
            decreases self.windows@.len() - j,
        {
            if self.windows[j].id == id {
                return Some(j);
            }
            j += 1;
        }
        None
    }

    /// Recomputes the paint order from the creation order: one pass
    /// per stacking class, front first, each pass keeping the
    /// creation-order sequence. Nothing else changes. Must run before
    /// every redraw; it is the single source of truth for paint order.
    pub fn rezbuffer(&mut self)
        requires
            old(self).wf(),
        ensures
            final(self).wf(),
            final(self).zbuffer@ == old(self).spec_zbuffer(),
            final(self).next_id == old(self).next_id,
            final(self).order == old(self).order,
            final(self).windows == old(self).windows,
            final(self).cursor_x == old(self).cursor_x,
            final(self).cursor_y == old(self).cursor_y,
            final(self).cursor_i == old(self).cursor_i,
            final(self).events == old(self).events,
    {
        self.zbuffer.clear();
        proof {
            assert(self.zbuffer@ =~= Seq::<ZBufferEntry>::empty());
        }
        append_class_entries(&self.order, &self.windows, WindowZOrderMode::Front, &mut self.zbuffer);
        append_class_entries(
            &self.order,
            &self.windows,
            WindowZOrderMode::Normal,
            &mut self.zbuffer,
        );
        append_class_entries(&self.order, &self.windows, WindowZOrderMode::Back, &mut self.zbuffer);
        proof {
            assert(self.zbuffer@ =~= old(self).spec_zbuffer());
        }
    }

    /// Creates a window: assigns it the next id, registers it in the
    /// creation order — front classes enter at the front of the list,
    /// background windows at the back — damages its whole region, and
    /// re-applies the cursor so new stacking cannot leave it stale. A
    /// negative requested position on both axes asks for centred
    /// placement on the screen. A zero-extent window is accepted and
    /// simply paints nothing.
    pub fn window_new(
        &mut self,
        compositor: &mut Compositor,
        server: &StarryServer,
        x: i32,
        y: i32,
        zorder: WindowZOrderMode,
        transparent: bool,
        image: Image,
    ) -> (id: usize)
        requires
            old(self).wf(),
            old(compositor).wf(),
            server.wf(),
            // ids are never released, so the id space cannot wrap while
            // windows live
            old(self).next_id < isize::MAX,
            image.wf(),
            -COORD_MAX <= x,
            x + image.w <= COORD_MAX,
            -COORD_MAX <= y,
            y + image.h <= COORD_MAX,
        ensures
            final(self).wf(),
            final(compositor).wf(),
            id == old(self).next_id as usize,
            final(self).next_id == old(self).next_id + 1,
            final(self).windows@.len() == old(self).windows@.len() + 1,
            forall|j: int|
                0 <= j < old(self).windows@.len() ==> final(self).windows@[j] == old(
                    self,
                ).windows@[j],
            ({
                let win = final(self).windows@.last();
                &&& win.id == id
                &&& win.x == spec_placed_x(x as int, y as int, image)
                &&& win.y == spec_placed_y(x as int, y as int, image)
                &&& win.scale == 1
                &&& win.zorder == zorder
                &&& win.transparent == transparent
                &&& win.image == image
                &&& win.title@ == Seq::<char>::empty()
                &&& win.events@ == Seq::<Event>::empty()
            }),
            final(self).order@ == if zorder == WindowZOrderMode::Back {
                old(self).order@.push(id)
            } else {
                seq![id] + old(self).order@
            },
            final(self).zbuffer == old(self).zbuffer,
            final(self).events == old(self).events,
            (final(self).spec_cursor_state(), final(compositor).redraws@) == spec_update_cursor(
                old(self).spec_cursor_state(),
                spec_request(
                    old(compositor).redraws@,
                    (Rect {
                        x: spec_placed_x(x as int, y as int, image) as i32,
                        y: spec_placed_y(x as int, y as int, image) as i32,
                        w: image.w,
                        h: image.h,
                    }),
                ),
                *server,
                old(self).cursor_x as int,
                old(self).cursor_y as int,
                CursorKind::Normal,
            ),
    {
        let id = self.next_id as usize;
        self.next_id = self.next_id + 1;
        if self.next_id < 0 {
            self.next_id = 1;
        }
        let px = if x < 0 && y < 0 {
            place_centered(image.width(), SCREEN_WIDTH as i32)
        } else {
            x
        };
        let py = if x < 0 && y < 0 {
            place_centered(image.height(), SCREEN_HEIGHT as i32)
        } else {
            y
        };
        let window = Window::new(id, px, py, 1, zorder, transparent, image);
        let wrect = window.rect();
        compositor.request_redraw(wrect);
        match zorder {
            WindowZOrderMode::Back => self.order.push(id),
            _ => self.order.insert(0, id),
        }
        let ghost mid_order = self.order@;
        self.windows.push(window);
        proof {
            if zorder == WindowZOrderMode::Back {
                assert(mid_order == old(self).order@.push(id));
            } else {
                assert(mid_order =~= seq![id] + old(self).order@);
            }
            assert(self.windows@ == old(self).windows@.push(window));
            assert forall|k: int|
                0 <= k < mid_order.len() implies table_has(self.windows@, #[trigger] mid_order[k])
                by {
                if mid_order[k] != id {
                    assert(old(self).order@.contains(mid_order[k]));
                    assert(table_has(old(self).windows@, mid_order[k]));
                    let j = choose|j: int|
                        0 <= j < old(self).windows@.len() && (#[trigger] old(
                            self,
                        ).windows@[j]).id == mid_order[k];
                    assert(self.windows@[j].id == mid_order[k]);
                } else {
                    assert(self.windows@.last().id == id);
                }
            }
            assert forall|k: int, l: int|
                0 <= k < l < mid_order.len() implies mid_order[k] != mid_order[l] by {
                lemma_order_entry_bound(old(self).order@, old(self).windows@, old(self).next_id);
            }
            assert forall|j: int|
                0 <= j < self.windows@.len() implies mid_order.contains(
                (#[trigger] self.windows@[j]).id) by {
                if j < old(self).windows@.len() {
                    let k = choose|k: int|
                        0 <= k < old(self).order@.len() && old(self).order@[k] == old(
                            self,
                        ).windows@[j].id;
                    if zorder == WindowZOrderMode::Back {
                        assert(mid_order[k] == self.windows@[j].id);
                    } else {
                        assert(mid_order[k + 1] == self.windows@[j].id);
                    }
                } else {
                    if zorder == WindowZOrderMode::Back {
                        assert(mid_order.last() == id);
                    } else {
                        assert(mid_order[0] == id);
                    }
                }
            }
            assert(self.wf());
        }
        let cx = self.cursor_x;
        let cy = self.cursor_y;
        self.handle_mouse_update_event(compositor, server, MouseUpdateEvent { x: cx, y: cy });
        id
    }

    /// The screen region the cursor covers at its current position,
    /// with the image of its current kind.
    pub fn cursor_rect(&self, server: &StarryServer) -> (r: Rect)
        requires
            self.wf(),
            server.wf(),
        ensures
            r == spec_cursor_rect_of(self.spec_cursor_state(), *server),
            r.wf(),
    {
        let img = server.cursor_image(self.cursor_i);
        Rect::new(self.cursor_x, self.cursor_y, img.width(), img.height())
    }

    /// Moves the cursor to `(x, y)` with look `kind`. The position is
    /// clamped so the cursor rectangle never leaves the screen. When
    /// nothing changes, nothing is damaged; otherwise the regions of
    /// both the old and the new cursor rectangle are damaged, so both
    /// get recomposited.
    pub fn update_cursor(
        &mut self,
        compositor: &mut Compositor,
        server: &StarryServer,
        x: i32,
        y: i32,
        kind: CursorKind,
    )
        requires
            old(self).wf(),
            old(compositor).wf(),
            server.wf(),
        ensures
            final(self).wf(),
            final(compositor).wf(),
            (final(self).spec_cursor_state(), final(compositor).redraws@) == spec_update_cursor(
                old(self).spec_cursor_state(),
                old(compositor).redraws@,
                *server,
                x as int,
                y as int,
                kind,
            ),
            final(self).next_id == old(self).next_id,
            final(self).order == old(self).order,
            final(self).zbuffer == old(self).zbuffer,
            final(self).windows == old(self).windows,
            final(self).events == old(self).events,
            final(self).spec_cursor_state() != old(self).spec_cursor_state() ==> {
                &&& forall|px: int, py: int|
                    spec_cursor_rect_of(old(self).spec_cursor_state(), *server).covers(px, py)
                        ==> damage_covers(final(compositor).redraws@, px, py)
                &&& forall|px: int, py: int|
                    spec_cursor_rect_of(final(self).spec_cursor_state(), *server).covers(px, py)
                        ==> damage_covers(final(compositor).redraws@, px, py)
            },
    {
        let img = server.cursor_image(kind);
        let cx = clamp_i32(x, 0, SCREEN_WIDTH as i32 - img.width());
        let cy = clamp_i32(y, 0, SCREEN_HEIGHT as i32 - img.height());
        if kind != self.cursor_i || cx != self.cursor_x || cy != self.cursor_y {
            let old_rect = self.cursor_rect(server);
            compositor.request_redraw(old_rect);
            self.cursor_i = kind;
            self.cursor_x = cx;
            self.cursor_y = cy;
            let new_rect = self.cursor_rect(server);
            compositor.request_redraw(new_rect);
        }
    }

    /// Moves the cursor to an absolute position with the ordinary
    /// look.
    pub fn handle_mouse_update_event(
        &mut self,
        compositor: &mut Compositor,
        server: &StarryServer,
        event: MouseUpdateEvent,
    )
        requires
            old(self).wf(),
            old(compositor).wf(),
            server.wf(),
        ensures
            final(self).wf(),
            final(compositor).wf(),
            (final(self).spec_cursor_state(), final(compositor).redraws@) == spec_update_cursor(
                old(self).spec_cursor_state(),
                old(compositor).redraws@,
                *server,
                event.x as int,
                event.y as int,
                CursorKind::Normal,
            ),
            final(self).next_id == old(self).next_id,
            final(self).order == old(self).order,
            final(self).zbuffer == old(self).zbuffer,
            final(self).windows == old(self).windows,
            final(self).events == old(self).events,
    {
        self.update_cursor(compositor, server, event.x, event.y, CursorKind::Normal);
    }

    /// Converts a relative pointer motion into an absolute position —
    /// screen y grows downward, so a positive device `dy` moves the
    /// cursor up — clamps it against the screen, and moves the cursor
    /// there.
    pub fn handle_mouse_relative_event(
        &mut self,
        compositor: &mut Compositor,
        server: &StarryServer,
        event: MouseRelativeEvent,
    )
        requires
            old(self).wf(),
            old(compositor).wf(),
            server.wf(),
        ensures
            final(self).wf(),
            final(compositor).wf(),
            (final(self).spec_cursor_state(), final(compositor).redraws@) == spec_update_cursor(
                old(self).spec_cursor_state(),
                old(compositor).redraws@,
                *server,
                spec_pointer_target(old(self).spec_cursor_state(), *server, event).0,
                spec_pointer_target(old(self).spec_cursor_state(), *server, event).1,
                CursorKind::Normal,
            ),
            final(self).next_id == old(self).next_id,
            final(self).order == old(self).order,
            final(self).zbuffer == old(self).zbuffer,
            final(self).windows == old(self).windows,
            final(self).events == old(self).events,
    {
        let cursor_rect = self.cursor_rect(server);
        let max_x = SCREEN_WIDTH as i32;
        let max_y = SCREEN_HEIGHT as i32;
        let tx64 = clamp_i64(
            self.cursor_x as i64 + event.dx as i64,
            0,
            (max_x - cursor_rect.width()) as i64,
        );
        let ty64 = clamp_i64(
            self.cursor_y as i64 - event.dy as i64,
            0,
            (max_y - cursor_rect.height()) as i64,
        );
        self.handle_mouse_update_event(
            compositor,
            server,
            MouseUpdateEvent { x: tx64 as i32, y: ty64 as i32 },
        );
    }

    /// Queues one event for dispatch.
    pub fn send_event(&mut self, event: Event)
        ensures
            final(self).events@ == old(self).events@.push(event),
            final(self).next_id == old(self).next_id,
            final(self).order == old(self).order,
            final(self).zbuffer == old(self).zbuffer,
            final(self).windows == old(self).windows,
            final(self).cursor_x == old(self).cursor_x,
            final(self).cursor_y == old(self).cursor_y,
            final(self).cursor_i == old(self).cursor_i,
    {
        self.events.push(event);
    }

    /// Queues a batch of events for dispatch, oldest first.
    pub fn send_events(&mut self, events: Vec<Event>)
        ensures
            final(self).events@ == old(self).events@ + events@,
            final(self).next_id == old(self).next_id,
            final(self).order == old(self).order,
            final(self).zbuffer == old(self).zbuffer,
            final(self).windows == old(self).windows,
            final(self).cursor_x == old(self).cursor_x,
            final(self).cursor_y == old(self).cursor_y,
            final(self).cursor_i == old(self).cursor_i,
    {
        let mut incoming = events;
        self.events.append(&mut incoming);
    }

    /// Dispatches one event: pointer motion moves the cursor; button
    /// events are accepted and ignored, as are events this core does
    /// not route.
    pub fn handle_event(
        &mut self,
        compositor: &mut Compositor,
        server: &StarryServer,
        event: Event,
    )
        requires
            old(self).wf(),
            old(compositor).wf(),
            server.wf(),
        ensures
            final(self).wf(),
            final(compositor).wf(),
            (final(self).spec_cursor_state(), final(compositor).redraws@) == spec_handle_event(
                old(self).spec_cursor_state(),
                old(compositor).redraws@,
                *server,
                event,
            ),
            final(self).next_id == old(self).next_id,
            final(self).order == old(self).order,
            final(self).zbuffer == old(self).zbuffer,
            final(self).windows == old(self).windows,
            final(self).events == old(self).events,
    {
        match event.to_option() {
            EventOption::MouseRelative(e) => self.handle_mouse_relative_event(
                compositor,
                server,
                e,
            ),
            EventOption::Button(_e) => {},
            _ => {},
        }
    }

    /// Dispatches every pending event, most recently queued first; the
    /// queue is empty afterwards.
    pub fn handle_all_events(&mut self, compositor: &mut Compositor, server: &StarryServer)
        requires
            old(self).wf(),
            old(compositor).wf(),
            server.wf(),
        ensures
            final(self).wf(),
            final(compositor).wf(),
            final(self).events@ == Seq::<Event>::empty(),
            (final(self).spec_cursor_state(), final(compositor).redraws@) == spec_dispatch(
                old(self).spec_cursor_state(),
                old(compositor).redraws@,
                *server,
                old(self).events@,
            ),
            final(self).next_id == old(self).next_id,
            final(self).order == old(self).order,
            final(self).zbuffer == old(self).zbuffer,
            final(self).windows == old(self).windows,
    {
        loop
            invariant
                self.wf(),
                compositor.wf(),
                server.wf(),
                spec_dispatch(
                    self.spec_cursor_state(),
                    compositor.redraws@,
                    *server,
                    self.events@,
                ) == spec_dispatch(
                    old(self).spec_cursor_state(),
                    old(compositor).redraws@,
                    *server,
                    old(self).events@,
                ),
                self.next_id == old(self).next_id,
                self.order == old(self).order,
                self.zbuffer == old(self).zbuffer,
                self.windows == old(self).windows,
            ensures
                self.events@.len() == 0,
            decreases self.events@.len(),
        {
            let ghost pre_events = self.events@;
            let ghost pre_cs = self.spec_cursor_state();
            let ghost pre_rd = compositor.redraws@;
            match self.events.pop() {
                Some(event) => {
                    proof {
                        assert(pre_events.last() == event);
                        assert(pre_events.drop_last() =~= self.events@);
                    }
                    self.handle_event(compositor, server, event);
                },
                None => {
                    break ;
                },
            }
        }
        proof {
            assert(self.events@ =~= Seq::<Event>::empty());
        }
    }
}

/// The x coordinate a new window is placed at: centred on the screen
/// when the caller asked for default placement on both axes, else as
/// requested.
pub open spec fn spec_placed_x(x: int, y: int, image: Image) -> int {
    if x < 0 && y < 0 {
        max(0, (SCREEN_WIDTH - image.w) / 2)
    } else {
        x
    }
}

/// The y coordinate a new window is placed at: centred on the screen
/// when the caller asked for default placement on both axes, else as
/// requested.
pub open spec fn spec_placed_y(x: int, y: int, image: Image) -> int {
    if x < 0 && y < 0 {
        max(0, (SCREEN_HEIGHT - image.h) / 2)
    } else {
        y
    }
}

/// Every id the order list names belongs to a window, so it lies below
/// the id bound of the window table.
proof fn lemma_order_entry_bound(order: Seq<usize>, windows: Seq<Window>, bound: isize)
    requires
        table_wf(order, windows),
        forall|j: int| 0 <= j < windows.len() ==> (#[trigger] windows[j]).id < bound,
    ensures
        forall|k: int| 0 <= k < order.len() ==> (#[trigger] order[k]) < bound,
{
    assert forall|k: int| 0 <= k < order.len() implies (#[trigger] order[k]) < bound by {
        assert(table_has(windows, order[k]));
        let j = choose|j: int|
            0 <= j < windows.len() && (#[trigger] windows[j]).id == order[k];
        assert(windows[j].id < bound);
    }
}

/// Where a centred window lands on one axis: in the screen's middle,
/// but never at a negative coordinate.
fn place_centered(extent: i32, screen: i32) -> (r: i32)
    requires
        0 <= extent,
        0 < screen <= 0x8000,
    ensures
        r == max(0, ((screen - extent) as int) / 2),
        0 <= r <= screen,
{
    if extent >= screen {
        proof {
            assert(((screen - extent) as int) / 2 <= 0) by (nonlinear_arith)
                requires
                    extent >= screen,
            ;
        }
        0
    } else {
        let gap = (screen - extent) as u32;
        proof {
            assert((gap as int) / 2 == ((screen - extent) as int) / 2);
            assert(0 <= (gap as int) / 2 <= screen);
        }
        (gap / 2) as i32
    }
}

/// `v` clamped into `[lo, hi]`.
fn clamp_i32(v: i32, lo: i32, hi: i32) -> (r: i32)
    requires
        lo <= hi,
    ensures
        r == spec_clamp(v as int, lo as int, hi as int),
{
    if v < lo {
        lo
    } else if v > hi {
        hi
    } else {
        v
    }
}

/// `v` clamped into `[lo, hi]`.
fn clamp_i64(v: i64, lo: i64, hi: i64) -> (r: i64)
    requires
        lo <= hi,
    ensures
        r == spec_clamp(v as int, lo as int, hi as int),
{
    if v < lo {
        lo
    } else if v > hi {
        hi
    } else {
        v
    }
}

/// Appends every paint-order entry of one stacking class to `out`, in
/// creation-order sequence.
fn append_class_entries(
    order: &Vec<usize>,
    windows: &Vec<Window>,
    z: WindowZOrderMode,
    out: &mut Vec<ZBufferEntry>,
)
    requires
        table_wf(order@, windows@),
    ensures
        final(out)@ == old(out)@ + filter_class(zorder_entries_of(order@, windows@), z),
{
    let ghost all = zorder_entries_of(order@, windows@);
    let mut k: usize = 0;
    while k < order.len()
        invariant
            table_wf(order@, windows@),
            0 <= k <= order@.len(),
            all == zorder_entries_of(order@, windows@),
            out@ == old(out)@ + filter_class(all.take(k as int), z),
        decreases order@.len() - k,
    {
        let id = order[k];
        let mut zd_opt: Option<WindowZOrderMode> = None;
        let mut j: usize = 0;
        while j < windows.len()
            invariant
                0 <= j <= windows@.len(),
                zd_opt matches Some(zd) ==> exists|i: int|
                    0 <= i < windows@.len() && (#[trigger] windows@[i]).id == id
                        && windows@[i].zorder == zd,
                zd_opt is None ==> forall|i: int|
                    0 <= i < j ==> (#[trigger] windows@[i]).id != id,
            decreases windows@.len() - j,
        {
            if zd_opt.is_none() && windows[j].id == id {
                zd_opt = Some(windows[j].zorder);
            }
            j += 1;
        }
        proof {
            assert(table_has(windows@, id));
            let wi = choose|i: int|
                0 <= i < windows@.len() && (#[trigger] windows@[i]).id == id;
            assert(windows@[wi].id == id);
            assert(zd_opt is Some);
        }
        match zd_opt {
            Some(zd) => {
                proof {
                    let i = choose|i: int|
                        0 <= i < windows@.len() && (#[trigger] windows@[i]).id == id
                            && windows@[i].zorder == zd;
                    lemma_table_window_at(windows@, i);
                    assert(all[k as int] == (id, zd, k as usize));
                }
                if zd == z {
                    out.push((id, zd, k));
                }
                proof {
                    lemma_filter_class_step(all, z, k as int);
                    assert(out@ =~= old(out)@ + filter_class(all.take(k as int + 1), z));
                }
            },
            None => {
                proof {
                    assert(false);
                }
            },
        }
        k += 1;
    }
    proof {
        assert(all.take(all.len() as int) == all) by {
            assert(all.take(all.len() as int) =~= all);
        }
    }
}

/// Filtering a class from a prefix one element longer keeps the
/// filtered prefix and appends the new entry exactly when its class
/// matches.
pub proof fn lemma_filter_class_step(s: Seq<ZBufferEntry>, z: WindowZOrderMode, k: int)
    requires
        0 <= k < s.len(),
    ensures
        filter_class(s.take(k + 1), z) == if s[k].1 == z {
            filter_class(s.take(k), z).push(s[k])
        } else {
            filter_class(s.take(k), z)
        },
{
    let t1 = s.take(k + 1);
    assert(t1.drop_last() =~= s.take(k));
    assert(t1.last() == s[k]);
    assert(t1.len() == k + 1);
    reveal_with_fuel(Seq::filter, 2);
    assert(filter_class(t1, z) == if s[k].1 == z {
        filter_class(t1.drop_last(), z).push(s[k])
    } else {
        filter_class(t1.drop_last(), z)
    });
}

/// A class no entry belongs to filters to nothing.
pub proof fn lemma_filter_class_none(s: Seq<ZBufferEntry>, z: WindowZOrderMode)
    requires
        forall|k: int| 0 <= k < s.len() ==> (#[trigger] s[k]).1 != z,
    ensures
        filter_class(s, z) == Seq::<ZBufferEntry>::empty(),
    decreases s.len(),
{
    reveal_with_fuel(Seq::filter, 2);
    if s.len() == 0 {
        assert(filter_class(s, z) =~= Seq::<ZBufferEntry>::empty());
    } else {
        assert(forall|k: int| 0 <= k < s.drop_last().len() ==> (#[trigger] s.drop_last()[k]).1
            != z);
        lemma_filter_class_none(s.drop_last(), z);
        assert(s.last().1 != z);
    }
}

/// When the first entry belongs to the class, it is also the first
/// entry of the filtered sequence.
pub proof fn lemma_filter_class_first(s: Seq<ZBufferEntry>, z: WindowZOrderMode)
    requires
        s.len() > 0,
        s[0].1 == z,
    ensures
        filter_class(s, z).len() > 0,
        filter_class(s, z)[0] == s[0],
    decreases s.len(),
{
    reveal_with_fuel(Seq::filter, 2);
    if s.len() == 1 {
        assert(s.drop_last().len() == 0);
        assert(filter_class(s.drop_last(), z) =~= Seq::<ZBufferEntry>::empty());
    } else {
        assert(s.drop_last()[0] == s[0]);
        lemma_filter_class_first(s.drop_last(), z);
    }
}

/// A class exactly one entry belongs to filters to that entry alone.
pub proof fn lemma_filter_class_single(s: Seq<ZBufferEntry>, z: WindowZOrderMode, k0: int)
    requires
        0 <= k0 < s.len(),
        s[k0].1 == z,
        forall|k: int| 0 <= k < s.len() && k != k0 ==> (#[trigger] s[k]).1 != z,
    ensures
        filter_class(s, z) == seq![s[k0]],
    decreases s.len(),
{
    reveal_with_fuel(Seq::filter, 2);
    if k0 == s.len() - 1 {
        assert(forall|k: int| 0 <= k < s.drop_last().len() ==> (#[trigger] s.drop_last()[k]).1
            != z);
        lemma_filter_class_none(s.drop_last(), z);
        assert(filter_class(s, z) =~= seq![s[k0]]);
    } else {
        assert(s.drop_last()[k0] == s[k0]);
        assert(forall|k: int|
            0 <= k < s.drop_last().len() && k != k0 ==> (#[trigger] s.drop_last()[k]).1 != z);
        lemma_filter_class_single(s.drop_last(), z, k0);
        assert(s.last().1 != z);
    }
}

} // verus!
