use starry::color::Color;
use starry::image::Image;

#[test]
fn rect_fill_blends_translucent_colour() {
    let mut img = Image::from_color(4, 4, Color::rgb(0, 0, 0));
    img.rect(0, 0, 4, 4, Color::rgba(255, 255, 255, 128));
    let p = img.get_pixel(1, 1);
    // the full "over" composite: channels (255 * 128) / 256 = 127
    assert_eq!(p.r(), 127);
    assert_eq!(p.g(), 127);
    assert_eq!(p.b(), 127);
}

#[test]
fn rect_fill_outside_the_surface_touches_one_clamped_cell_band() {
    let mut img = Image::from_color(4, 4, Color::rgb(0, 0, 0));
    // the clipped lower edge is pulled back inside the surface, so a
    // rectangle past the bottom still paints the last row band it
    // clamps to
    img.rect(0, 10, 2, 3, Color::rgb(9, 0, 0));
    assert_eq!(img.get_pixel(0, 3).r(), 9);
    assert_eq!(img.get_pixel(0, 2).r(), 0);
}

#[test]
fn image_fast_clips_rows_below_the_surface() {
    let mut img = Image::from_color(2, 2, Color::rgb(0, 0, 0));
    let data = vec![Color::rgba(50, 0, 0, 255); 8];
    img.image_fast(0, 1, 2, 4, &data);
    assert_eq!(img.get_pixel(0, 1).r(), 50);
    assert_eq!(img.get_pixel(0, 0).r(), 0);
}

#[test]
fn pixel_alpha_255_replaces_exactly() {
    let mut img = Image::from_color(2, 2, Color::rgb(3, 3, 3));
    img.pixel(0, 1, Color::rgba(40, 50, 60, 255));
    assert_eq!(img.get_pixel(0, 1).to_rgba_bytes(), [40, 50, 60, 255]);
}
