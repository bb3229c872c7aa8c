use starry::color::Color;
use starry::display::Display;
use starry::image::Image;
use starry::rect::Rect;
use starry::window::{Window, WindowZOrderMode};

#[test]
fn display_starts_black_and_knows_its_screen_rect() {
    let d = Display::new(10, 20, 100, 50);
    assert_eq!(d.screen_rect(), Rect::new(10, 20, 100, 50));
    assert_eq!(d.image.get_pixel(0, 0).to_rgba_bytes(), [0, 0, 0, 255]);
}

#[test]
fn resize_replaces_the_back_buffer() {
    let mut d = Display::new(0, 0, 10, 10);
    d.rect(&Rect::new(0, 0, 10, 10), Color::rgb(9, 9, 9));
    d.resize(20, 20);
    assert_eq!(d.screen_rect(), Rect::new(0, 0, 20, 20));
    assert_eq!(d.image.get_pixel(5, 5).to_rgba_bytes(), [0, 0, 0, 255]);
}

#[test]
fn display_rect_fills_in_screen_coordinates() {
    let mut d = Display::new(100, 100, 50, 50);
    d.rect(&Rect::new(110, 110, 5, 5), Color::rgb(200, 0, 0));
    // screen (110,110) is back-buffer (10,10)
    assert_eq!(d.image.get_pixel(10, 10).r(), 200);
    assert_eq!(d.image.get_pixel(9, 9).r(), 0);
}

#[test]
fn opaque_window_overwrites_and_transparent_window_blends() {
    let mut d = Display::new(0, 0, 100, 100);
    d.rect(&Rect::new(0, 0, 100, 100), Color::rgb(255, 0, 0));

    let img = Image::from_color(10, 10, Color::rgba(0, 0, 255, 0));
    let opaque = Window::new(0, 0, 0, 1, WindowZOrderMode::Normal, false, img);
    opaque.draw(&mut d, &Rect::new(0, 0, 100, 100));
    // an opaque window copies its pixels raw, alpha zero and all
    assert_eq!(d.image.get_pixel(5, 5).to_rgba_bytes(), [0, 0, 255, 0]);
    assert_eq!(d.image.get_pixel(15, 15).to_rgba_bytes(), [255, 0, 0, 255]);

    let img2 = Image::from_color(10, 10, Color::rgba(0, 0, 255, 0));
    let clear = Window::new(1, 20, 20, 1, WindowZOrderMode::Normal, true, img2);
    clear.draw(&mut d, &Rect::new(0, 0, 100, 100));
    // a transparent window with alpha 0 leaves the ground untouched
    assert_eq!(d.image.get_pixel(25, 25).to_rgba_bytes(), [255, 0, 0, 255]);
}

#[test]
fn window_draw_is_restricted_to_the_damage_region() {
    let mut d = Display::new(0, 0, 100, 100);
    let img = Image::from_color(50, 50, Color::rgb(0, 255, 0));
    let w = Window::new(0, 0, 0, 1, WindowZOrderMode::Normal, false, img);
    w.draw(&mut d, &Rect::new(0, 0, 10, 10));
    assert_eq!(d.image.get_pixel(5, 5).g(), 255);
    // inside the window but outside the damaged region: untouched
    assert_eq!(d.image.get_pixel(20, 20).g(), 0);
}
