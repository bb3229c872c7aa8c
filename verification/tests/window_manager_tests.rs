use starry::color::Color;
use starry::compositor::Compositor;
use starry::display::Display;
use starry::event::{ButtonEvent, MouseRelativeEvent};
use starry::image::Image;
use starry::server::{CursorKind, StarryServer};
use starry::window::{Window, WindowZOrderMode};
use starry::window_manager::WindowManager;

fn fresh_server() -> StarryServer {
    StarryServer::new(vec![Display::new(0, 0, 1440, 900)])
}

fn tiny(color: Color) -> Image {
    Image::from_color(8, 8, color)
}

#[test]
fn window_ids_count_up_from_zero() {
    let mut comp = Compositor::new();
    let mut wm = WindowManager::new();
    let server = fresh_server();
    let a = wm.window_new(&mut comp, &server, 0, 0, WindowZOrderMode::Normal, false,
        tiny(Color::rgb(1, 1, 1)));
    let b = wm.window_new(&mut comp, &server, 0, 0, WindowZOrderMode::Normal, false,
        tiny(Color::rgb(2, 2, 2)));
    assert_eq!(a, 0);
    assert_eq!(b, 1);
    assert_eq!(wm.next_id, 2);
}

#[test]
fn default_placement_centres_the_window() {
    let mut comp = Compositor::new();
    let mut wm = WindowManager::new();
    let server = fresh_server();
    let img = Image::from_color(100, 100, Color::rgb(1, 1, 1));
    let id = wm.window_new(&mut comp, &server, -1, -1, WindowZOrderMode::Normal, false, img);
    let pos = wm.window_position(id).expect("the window just created exists");
    let win = &wm.windows[pos];
    assert_eq!(win.x, (1440 - 100) / 2);
    assert_eq!(win.y, (900 - 100) / 2);
}

#[test]
fn oversized_window_centres_at_origin() {
    let mut comp = Compositor::new();
    let mut wm = WindowManager::new();
    let server = fresh_server();
    let img = Image::from_color(2000, 1000, Color::rgb(1, 1, 1));
    let id = wm.window_new(&mut comp, &server, -1, -1, WindowZOrderMode::Normal, false, img);
    let pos = wm.window_position(id).unwrap();
    assert_eq!(wm.windows[pos].x, 0);
    assert_eq!(wm.windows[pos].y, 0);
}

#[test]
fn zero_extent_window_is_permitted() {
    let mut comp = Compositor::new();
    let mut wm = WindowManager::new();
    let mut server = fresh_server();
    let img = Image::from_color(0, 0, Color::rgb(1, 1, 1));
    wm.window_new(&mut comp, &server, 10, 10, WindowZOrderMode::Normal, false, img);
    // redrawing with a degenerate window draws nothing and does not fail
    comp.request_redraw(starry::rect::Rect::new(0, 0, 100, 100));
    comp.redraw_all(&mut wm, &mut server);
}

#[test]
fn creation_order_enters_front_classes_at_the_front() {
    let mut comp = Compositor::new();
    let mut wm = WindowManager::new();
    let server = fresh_server();
    let b = wm.window_new(&mut comp, &server, 0, 0, WindowZOrderMode::Back, false,
        tiny(Color::rgb(1, 1, 1)));
    let n1 = wm.window_new(&mut comp, &server, 0, 0, WindowZOrderMode::Normal, false,
        tiny(Color::rgb(2, 2, 2)));
    let n2 = wm.window_new(&mut comp, &server, 0, 0, WindowZOrderMode::Normal, false,
        tiny(Color::rgb(3, 3, 3)));
    let f = wm.window_new(&mut comp, &server, 0, 0, WindowZOrderMode::Front, false,
        tiny(Color::rgb(4, 4, 4)));
    assert_eq!(wm.order, vec![f, n2, n1, b]);
}

#[test]
fn rezbuffer_sorts_classes_stably() {
    let mut comp = Compositor::new();
    let mut wm = WindowManager::new();
    let server = fresh_server();
    let b = wm.window_new(&mut comp, &server, 0, 0, WindowZOrderMode::Back, false,
        tiny(Color::rgb(1, 1, 1)));
    let n1 = wm.window_new(&mut comp, &server, 0, 0, WindowZOrderMode::Normal, false,
        tiny(Color::rgb(2, 2, 2)));
    let n2 = wm.window_new(&mut comp, &server, 0, 0, WindowZOrderMode::Normal, false,
        tiny(Color::rgb(3, 3, 3)));
    let f = wm.window_new(&mut comp, &server, 0, 0, WindowZOrderMode::Front, false,
        tiny(Color::rgb(4, 4, 4)));
    wm.rezbuffer();
    // order list is [f, n2, n1, b]; the zbuffer sorts front first and
    // keeps each class in list sequence, recording list positions
    assert_eq!(
        wm.zbuffer,
        vec![
            (f, WindowZOrderMode::Front, 0),
            (n2, WindowZOrderMode::Normal, 1),
            (n1, WindowZOrderMode::Normal, 2),
            (b, WindowZOrderMode::Back, 3),
        ],
    );
}

#[test]
fn window_position_finds_by_id_and_tolerates_stale_ids() {
    let mut comp = Compositor::new();
    let mut wm = WindowManager::new();
    let server = fresh_server();
    let id = wm.window_new(&mut comp, &server, 0, 0, WindowZOrderMode::Normal, false,
        tiny(Color::rgb(1, 1, 1)));
    let pos = wm.window_position(id).unwrap();
    assert_eq!(wm.windows[pos].id, id);
    assert!(wm.window_position(999).is_none());
}

#[test]
fn window_rect_derives_from_position_and_surface() {
    let img = Image::from_color(30, 40, Color::rgb(1, 1, 1));
    let w = Window::new(7, 5, 6, 1, WindowZOrderMode::Normal, false, img);
    assert_eq!(w.id, 7);
    assert_eq!(w.width(), 30);
    assert_eq!(w.height(), 40);
    let r = w.rect();
    assert_eq!(r, starry::rect::Rect::new(5, 6, 30, 40));
}

#[test]
fn pointer_delta_moves_against_device_y_axis() {
    let mut comp = Compositor::new();
    let mut wm = WindowManager::new();
    let mut server = fresh_server();
    server.set_cursor_image(
        CursorKind::Normal,
        Image::from_color(4, 4, Color::rgba(255, 255, 255, 255)),
    );
    wm.update_cursor(&mut comp, &server, 100, 100, CursorKind::Normal);
    // positive dy from the device means upward motion, so screen y falls
    wm.handle_mouse_relative_event(&mut comp, &server, MouseRelativeEvent { dx: 10, dy: 30 });
    assert_eq!(wm.cursor_x, 110);
    assert_eq!(wm.cursor_y, 70);
}

#[test]
fn dispatch_drains_every_pending_event() {
    let mut comp = Compositor::new();
    let mut wm = WindowManager::new();
    let mut server = fresh_server();
    server.set_cursor_image(
        CursorKind::Normal,
        Image::from_color(4, 4, Color::rgba(255, 255, 255, 255)),
    );
    wm.update_cursor(&mut comp, &server, 100, 100, CursorKind::Normal);
    wm.send_event(MouseRelativeEvent { dx: 5, dy: 0 }.to_event());
    let batch = vec![
        MouseRelativeEvent { dx: 7, dy: 0 }.to_event(),
        ButtonEvent { left: true, middle: false, right: false }.to_event(),
    ];
    wm.send_events(batch);
    assert_eq!(wm.events.len(), 3);
    wm.handle_all_events(&mut comp, &server);
    assert_eq!(wm.events.len(), 0);
    // both motions land, dispatched most recent first; buttons are
    // accepted and ignored
    assert_eq!(wm.cursor_x, 112);
    assert_eq!(wm.cursor_y, 100);
}

#[test]
fn cursor_rect_takes_the_current_image_extent() {
    let mut comp = Compositor::new();
    let mut wm = WindowManager::new();
    let mut server = fresh_server();
    server.set_cursor_image(
        CursorKind::Normal,
        Image::from_color(12, 34, Color::rgba(255, 255, 255, 255)),
    );
    wm.update_cursor(&mut comp, &server, 20, 30, CursorKind::Normal);
    let r = wm.cursor_rect(&server);
    assert_eq!(r, starry::rect::Rect::new(20, 30, 12, 34));
    // an unregistered kind keeps its empty image, giving an empty rect
    wm.update_cursor(&mut comp, &server, 20, 30, CursorKind::LeftSide);
    let r2 = wm.cursor_rect(&server);
    assert_eq!(r2.width(), 0);
    assert_eq!(r2.height(), 0);
}

#[test]
fn new_manager_parks_cursor_at_screen_centre() {
    let wm = WindowManager::new();
    assert_eq!(wm.cursor_x, 1440 / 2);
    assert_eq!(wm.cursor_y, 900 / 2);
    assert_eq!(wm.cursor_i, CursorKind::Normal);
    assert!(wm.windows.is_empty());
    assert!(wm.order.is_empty());
    assert!(wm.events.is_empty());
}
