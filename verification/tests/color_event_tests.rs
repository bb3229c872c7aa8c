use starry::color::Color;
use starry::event::{
    ButtonEvent, Event, EventOption, KeyEvent, MouseRelativeEvent, MouseUpdateEvent,
    WindowMoveEvent, WindowResizeEvent, EVENT_BUTTON, EVENT_KEY, EVENT_MOUSE_RELATIVE,
    EVENT_MOUSE_UPDATE, EVENT_WINDOW_MOVE, EVENT_WINDOW_RESIZE,
};

#[test]
fn color_rgb_channels() {
    let c = Color::rgb(10, 20, 30);
    assert_eq!(c.r(), 10);
    assert_eq!(c.g(), 20);
    assert_eq!(c.b(), 30);
    assert_eq!(c.a(), 255);
    assert_eq!(c.data, 0xFF0A141E);
}

#[test]
fn color_rgba_channels() {
    let c = Color::rgba(1, 2, 3, 4);
    assert_eq!(c.r(), 1);
    assert_eq!(c.g(), 2);
    assert_eq!(c.b(), 3);
    assert_eq!(c.a(), 4);
}

#[test]
fn color_byte_orders() {
    let c = Color::rgba(0x11, 0x22, 0x33, 0x44);
    assert_eq!(c.to_rgba_bytes(), [0x11, 0x22, 0x33, 0x44]);
    assert_eq!(c.to_bgra_bytes(), [0x33, 0x22, 0x11, 0x44]);
}

#[test]
fn color_equality_ignores_alpha() {
    assert!(Color::rgba(9, 8, 7, 0) == Color::rgba(9, 8, 7, 255));
    assert!(Color::rgb(9, 8, 7) != Color::rgb(9, 8, 6));
}

#[test]
fn event_new_is_empty() {
    let e = Event::new();
    assert_eq!(e.code, 0);
    assert_eq!(e.a, 0);
    assert_eq!(e.b, 0);
    assert!(matches!(e.to_option(), EventOption::Empty));
}

#[test]
fn key_event_round_trip() {
    let k = KeyEvent { character: 'a', scancode: 30, pressed: true };
    let e = k.to_event();
    assert_eq!(e.code, EVENT_KEY);
    assert_eq!(e.a, 'a' as i64);
    assert_eq!(e.b, 30 + 256);
    let back = KeyEvent::from_event(e);
    assert_eq!(back, k);
    let released = KeyEvent { character: 'z', scancode: 44, pressed: false };
    assert_eq!(KeyEvent::from_event(released.to_event()), released);
}

#[test]
fn key_event_invalid_code_point_decodes_to_nul() {
    let e = Event { code: EVENT_KEY, a: 0xD800, b: 0 };
    let k = KeyEvent::from_event(e);
    assert_eq!(k.character, '\0');
}

#[test]
fn mouse_relative_round_trip() {
    let m = MouseRelativeEvent { dx: -7, dy: 13 };
    let e = m.to_event();
    assert_eq!(e.code, EVENT_MOUSE_RELATIVE);
    assert_eq!(MouseRelativeEvent::from_event(e), m);
}

#[test]
fn button_event_new_reads_status_byte() {
    let b = ButtonEvent::new(0b0000_0001);
    assert!(b.left);
    assert!(!b.middle);
    assert!(!b.right);
    let b2 = ButtonEvent::new(0b0000_0111);
    assert!(b2.left);
    assert!(b2.middle);
    assert!(b2.right);
    let b3 = ButtonEvent::new(0b0000_0110);
    assert!(!b3.left);
    assert!(b3.middle);
    assert!(b3.right);
}

#[test]
fn button_event_wire_form_round_trips() {
    let b = ButtonEvent { left: true, middle: false, right: true };
    let e = b.to_event();
    assert_eq!(e.code, EVENT_BUTTON);
    assert_eq!(e.a, 1 + 4);
    assert_eq!(e.b, 0);
    assert_eq!(ButtonEvent::from_event(e), b);
    // every button combination survives the wire form
    for bits in 0u8..8 {
        let b = ButtonEvent {
            left: bits & 1 != 0,
            middle: bits & 2 != 0,
            right: bits & 4 != 0,
        };
        assert_eq!(ButtonEvent::from_event(b.to_event()), b);
    }
}

#[test]
fn mouse_update_round_trip() {
    let m = MouseUpdateEvent { x: 100, y: 200 };
    let e = m.to_event();
    assert_eq!(e.code, EVENT_MOUSE_UPDATE);
    assert_eq!(MouseUpdateEvent::from_event(e), m);
}

#[test]
fn window_move_round_trip() {
    let m = WindowMoveEvent { x: -5, y: 77 };
    let e = m.to_event();
    assert_eq!(e.code, EVENT_WINDOW_MOVE);
    assert_eq!(WindowMoveEvent::from_event(e), m);
}

#[test]
fn window_resize_round_trip() {
    let m = WindowResizeEvent { width: 640, height: 480 };
    let e = m.to_event();
    assert_eq!(e.code, EVENT_WINDOW_RESIZE);
    assert_eq!(WindowResizeEvent::from_event(e), m);
}

#[test]
fn to_option_routes_by_code() {
    let key = KeyEvent { character: 'q', scancode: 16, pressed: true }.to_event();
    assert!(matches!(key.to_option(), EventOption::Key(_)));
    let rel = MouseRelativeEvent { dx: 1, dy: 2 }.to_event();
    assert!(matches!(rel.to_option(), EventOption::MouseRelative(_)));
    let btn = ButtonEvent { left: false, middle: false, right: false }.to_event();
    assert!(matches!(btn.to_option(), EventOption::Button(_)));
    // absolute pointer positions and window events are not decoded here
    let upd = MouseUpdateEvent { x: 1, y: 2 }.to_event();
    assert!(matches!(upd.to_option(), EventOption::Unknown(_)));
}
