use starry::color::Color;
use starry::compositor::Compositor;
use starry::display::Display;
use starry::image::Image;
use starry::rect::Rect;
use starry::server::{CursorKind, StarryServer};
use starry::window::WindowZOrderMode;
use starry::window_manager::WindowManager;

fn fresh_server() -> StarryServer {
    StarryServer::new(vec![Display::new(0, 0, 1440, 900)])
}

#[test]
fn adjacent_damage_merges_into_one_rect_with_summed_area() {
    let mut comp = Compositor::new();
    comp.request_redraw(Rect::new(0, 0, 10, 10));
    comp.request_redraw(Rect::new(10, 0, 10, 10));
    assert_eq!(comp.redraws.len(), 1);
    let merged = comp.redraws[0];
    assert_eq!(merged, Rect::new(0, 0, 20, 10));
    assert_eq!(merged.area(), 100 + 100);
}

#[test]
fn distant_damage_stays_separate() {
    let mut comp = Compositor::new();
    comp.request_redraw(Rect::new(0, 0, 10, 10));
    comp.request_redraw(Rect::new(100, 100, 10, 10));
    assert_eq!(comp.redraws.len(), 2);
}

#[test]
fn overlapping_damage_merges_when_the_union_is_cheap() {
    let mut comp = Compositor::new();
    comp.request_redraw(Rect::new(0, 0, 10, 10));
    comp.request_redraw(Rect::new(2, 0, 10, 10));
    assert_eq!(comp.redraws.len(), 1);
    assert_eq!(comp.redraws[0], Rect::new(0, 0, 12, 10));
    // a diagonal overlap whose container costs more than both areas
    // together stays separate
    let mut comp2 = Compositor::new();
    comp2.request_redraw(Rect::new(0, 0, 10, 10));
    comp2.request_redraw(Rect::new(5, 5, 10, 10));
    assert_eq!(comp2.redraws.len(), 2);
}

#[test]
fn empty_damage_is_accepted() {
    let mut comp = Compositor::new();
    comp.request_redraw(Rect::new(5, 5, 0, 0));
    let mut wm = WindowManager::new();
    let mut server = fresh_server();
    // an empty rectangle contributes no dirty area
    let dirty = comp.redraw_all(&mut wm, &mut server);
    assert!(dirty.is_none());
    assert_eq!(comp.redraws.len(), 0);
}

#[test]
fn redraw_drains_damage_and_returns_dirty_union() {
    let mut comp = Compositor::new();
    let mut wm = WindowManager::new();
    let mut server = fresh_server();
    comp.request_redraw(Rect::new(0, 0, 10, 10));
    comp.request_redraw(Rect::new(500, 500, 10, 10));
    let dirty = comp.redraw_all(&mut wm, &mut server);
    assert_eq!(comp.redraws.len(), 0);
    let d = dirty.expect("two non-empty rects leave a dirty region");
    assert_eq!(d, Rect::new(0, 0, 510, 510));
}

#[test]
fn end_to_end_red_window_then_blue_overlay() {
    let mut comp = Compositor::new();
    let mut wm = WindowManager::new();
    let mut server = fresh_server();

    // a 100x100 opaque normal window at the origin, filled red
    let red = Image::from_color(100, 100, Color::rgb(255, 0, 0));
    wm.window_new(&mut comp, &server, 0, 0, WindowZOrderMode::Normal, false, red);
    comp.request_redraw(Rect::new(0, 0, 1440, 900));
    comp.redraw_all(&mut wm, &mut server);

    let fb = &server.displays[0].image;
    assert_eq!(fb.get_pixel(50, 50).to_rgba_bytes(), [255, 0, 0, 255]);
    // outside the window the background is untouched black
    assert_eq!(fb.get_pixel(200, 200).to_rgba_bytes(), [0, 0, 0, 255]);

    // a 50x50 transparent front window at (25,25), blue at half alpha;
    // window creation damages exactly its own rectangle
    let blue = Image::from_color(50, 50, Color::rgba(0, 0, 255, 128));
    wm.window_new(&mut comp, &server, 25, 25, WindowZOrderMode::Front, true, blue);
    comp.redraw_all(&mut wm, &mut server);

    let fb = &server.displays[0].image;
    // overlap pixel: red blended with half-alpha blue:
    // red (255 * 127) / 256 = 126, blue (255 * 128) / 256 = 127
    let p = fb.get_pixel(50, 50);
    assert_eq!(p.r(), 126);
    assert_eq!(p.g(), 0);
    assert_eq!(p.b(), 127);
    // outside the overlay the red window still shows
    assert_eq!(fb.get_pixel(10, 10).to_rgba_bytes(), [255, 0, 0, 255]);
}

#[test]
fn front_class_occludes_lower_classes_regardless_of_creation_order() {
    let mut comp = Compositor::new();
    let mut wm = WindowManager::new();
    let mut server = fresh_server();

    // the front window is created first, the back window last
    let red = Image::from_color(10, 10, Color::rgb(255, 0, 0));
    wm.window_new(&mut comp, &server, 0, 0, WindowZOrderMode::Front, false, red);
    let green = Image::from_color(10, 10, Color::rgb(0, 255, 0));
    wm.window_new(&mut comp, &server, 0, 0, WindowZOrderMode::Normal, false, green);
    let blue = Image::from_color(10, 10, Color::rgb(0, 0, 255));
    wm.window_new(&mut comp, &server, 0, 0, WindowZOrderMode::Back, false, blue);

    comp.request_redraw(Rect::new(0, 0, 1440, 900));
    comp.redraw_all(&mut wm, &mut server);
    let p = server.displays[0].image.get_pixel(5, 5);
    assert_eq!(p.to_rgba_bytes(), [255, 0, 0, 255]);
}

#[test]
fn front_window_wins_across_several_damage_rects() {
    let mut comp = Compositor::new();
    let mut wm = WindowManager::new();
    let mut server = fresh_server();

    let green = Image::from_color(10, 10, Color::rgb(0, 255, 0));
    wm.window_new(&mut comp, &server, 0, 0, WindowZOrderMode::Normal, false, green);
    let red = Image::from_color(10, 10, Color::rgb(255, 0, 0));
    wm.window_new(&mut comp, &server, 0, 0, WindowZOrderMode::Front, false, red);

    // several disjoint damage rectangles, more than one reaching the
    // overlap; the front window still decides every damaged pixel it
    // covers
    comp.redraw_all(&mut wm, &mut server);
    comp.request_redraw(Rect::new(0, 0, 6, 6));
    comp.request_redraw(Rect::new(300, 300, 10, 10));
    comp.request_redraw(Rect::new(4, 4, 4, 4));
    comp.redraw_all(&mut wm, &mut server);
    let fb = &server.displays[0].image;
    assert_eq!(fb.get_pixel(5, 5).to_rgba_bytes(), [255, 0, 0, 255]);
    assert_eq!(fb.get_pixel(2, 2).to_rgba_bytes(), [255, 0, 0, 255]);
    // a damaged pixel no window covers keeps the background
    assert_eq!(fb.get_pixel(305, 305).to_rgba_bytes(), [0, 0, 0, 255]);
}

#[test]
fn within_a_class_the_most_recent_window_wins() {
    let mut comp = Compositor::new();
    let mut wm = WindowManager::new();
    let mut server = fresh_server();

    let first = Image::from_color(10, 10, Color::rgb(0, 255, 0));
    wm.window_new(&mut comp, &server, 0, 0, WindowZOrderMode::Normal, false, first);
    let second = Image::from_color(10, 10, Color::rgb(0, 0, 255));
    wm.window_new(&mut comp, &server, 0, 0, WindowZOrderMode::Normal, false, second);

    comp.request_redraw(Rect::new(0, 0, 1440, 900));
    comp.redraw_all(&mut wm, &mut server);
    let p = server.displays[0].image.get_pixel(5, 5);
    assert_eq!(p.to_rgba_bytes(), [0, 0, 255, 255]);
}

#[test]
fn cursor_move_damages_both_old_and_new_rectangle() {
    let mut comp = Compositor::new();
    let mut wm = WindowManager::new();
    let mut server = fresh_server();
    server.set_cursor_image(
        CursorKind::Normal,
        Image::from_color(10, 10, Color::rgba(255, 255, 255, 255)),
    );
    // a full-screen background window repaints vacated regions
    let bg = Image::from_color(1440, 900, Color::rgb(0, 0, 0));
    wm.window_new(&mut comp, &server, 0, 0, WindowZOrderMode::Back, false, bg);

    // park the cursor at a known spot and drain the damage
    wm.update_cursor(&mut comp, &server, 100, 100, CursorKind::Normal);
    comp.redraw_all(&mut wm, &mut server);
    assert_eq!(comp.redraws.len(), 0);

    // move it somewhere disjoint: both rectangles must be damaged
    wm.update_cursor(&mut comp, &server, 400, 400, CursorKind::Normal);
    let covers = |x: i32, y: i32| comp.redraws.iter().any(|r| r.contains(x, y));
    assert!(covers(105, 105), "the vacated cursor rectangle must be damaged");
    assert!(covers(405, 405), "the new cursor rectangle must be damaged");

    // after the redraw the cursor shows at the new position only
    comp.redraw_all(&mut wm, &mut server);
    let fb = &server.displays[0].image;
    assert_eq!(fb.get_pixel(405, 405).to_rgba_bytes(), [255, 255, 255, 255]);
    assert_eq!(fb.get_pixel(105, 105).to_rgba_bytes(), [0, 0, 0, 255]);
}

#[test]
fn cursor_position_is_clamped_to_the_screen() {
    let mut comp = Compositor::new();
    let mut wm = WindowManager::new();
    let mut server = fresh_server();
    server.set_cursor_image(
        CursorKind::Normal,
        Image::from_color(10, 10, Color::rgba(255, 255, 255, 255)),
    );
    wm.update_cursor(&mut comp, &server, 5000, -50, CursorKind::Normal);
    assert_eq!(wm.cursor_x, 1440 - 10);
    assert_eq!(wm.cursor_y, 0);
}

#[test]
fn unchanged_cursor_update_damages_nothing() {
    let mut comp = Compositor::new();
    let mut wm = WindowManager::new();
    let server = fresh_server();
    let x = wm.cursor_x;
    let y = wm.cursor_y;
    wm.update_cursor(&mut comp, &server, x, y, CursorKind::Normal);
    assert_eq!(comp.redraws.len(), 0);
}
