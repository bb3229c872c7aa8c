use starry::color::Color;
use starry::image::{Image, RenderMode};
use starry::rect::Rect;

#[test]
fn from_color_fills_every_pixel() {
    let img = Image::from_color(4, 3, Color::rgb(1, 2, 3));
    assert_eq!(img.width(), 4);
    assert_eq!(img.height(), 3);
    assert_eq!(img.dimensions(), (4, 3));
    for y in 0..3 {
        for x in 0..4 {
            let p = img.get_pixel(x, y);
            assert_eq!(p.to_rgba_bytes(), [1, 2, 3, 255]);
        }
    }
}

#[test]
fn new_is_opaque_black() {
    let img = Image::new(2, 2);
    assert_eq!(img.get_pixel(1, 1).to_rgba_bytes(), [0, 0, 0, 255]);
}

#[test]
fn get_pixel_out_of_storage_is_black() {
    let img = Image::from_color(2, 2, Color::rgb(50, 60, 70));
    assert_eq!(img.get_pixel(5, 5).to_rgba_bytes(), [0, 0, 0, 255]);
    assert_eq!(img.get_pixel(-1, 0).to_rgba_bytes(), [0, 0, 0, 255]);
}

#[test]
fn duplicate_copies_pixels() {
    let img = Image::from_color(3, 2, Color::rgba(9, 9, 9, 9));
    let copy = img.duplicate();
    assert_eq!(copy.width(), 3);
    assert_eq!(copy.height(), 2);
    assert_eq!(copy.get_pixel(2, 1).to_rgba_bytes(), [9, 9, 9, 9]);
}

#[test]
fn blend_opaque_source_replaces_destination() {
    // alpha = 255 yields the exact source value
    let mut dst = Image::from_color(4, 4, Color::rgb(0, 0, 0));
    let src = Image::from_color(4, 4, Color::rgba(10, 20, 30, 255));
    dst.blend(&Rect::new(0, 0, 4, 4), &src, &Rect::new(0, 0, 4, 4));
    assert_eq!(dst.get_pixel(2, 2).to_rgba_bytes(), [10, 20, 30, 255]);
}

#[test]
fn blend_transparent_source_changes_nothing() {
    // alpha = 0 leaves the destination unchanged
    let mut dst = Image::from_color(4, 4, Color::rgb(10, 20, 30));
    let src = Image::from_color(4, 4, Color::rgba(200, 200, 200, 0));
    dst.blend(&Rect::new(0, 0, 4, 4), &src, &Rect::new(0, 0, 4, 4));
    assert_eq!(dst.get_pixel(1, 3).to_rgba_bytes(), [10, 20, 30, 255]);
}

#[test]
fn blend_half_alpha_white_over_black_is_mid_gray() {
    // alpha = 128 over pure black with a pure white source lands on
    // mid-gray within rounding tolerance
    let mut dst = Image::from_color(2, 2, Color::rgb(0, 0, 0));
    let src = Image::from_color(2, 2, Color::rgba(255, 255, 255, 128));
    dst.blend(&Rect::new(0, 0, 2, 2), &src, &Rect::new(0, 0, 2, 2));
    let p = dst.get_pixel(0, 0);
    for c in [p.r(), p.g(), p.b()] {
        assert!(126 <= c && c <= 129, "channel {c} is not mid-gray");
    }
}

#[test]
fn blend_clips_to_shorter_region_and_leaves_rest() {
    let mut dst = Image::from_color(4, 4, Color::rgb(0, 0, 0));
    let src = Image::from_color(2, 2, Color::rgba(255, 0, 0, 255));
    // destination region is 3x3 but the source region is only 2x2
    dst.blend(&Rect::new(1, 1, 3, 3), &src, &Rect::new(0, 0, 2, 2));
    assert_eq!(dst.get_pixel(1, 1).r(), 255);
    assert_eq!(dst.get_pixel(2, 2).r(), 255);
    assert_eq!(dst.get_pixel(3, 3).r(), 0);
    assert_eq!(dst.get_pixel(0, 0).r(), 0);
}

#[test]
fn cover_ignores_alpha() {
    let mut dst = Image::from_color(2, 2, Color::rgb(10, 10, 10));
    let src = Image::from_color(2, 2, Color::rgba(77, 88, 99, 0));
    dst.cover(&Rect::new(0, 0, 2, 2), &src, &Rect::new(0, 0, 2, 2));
    assert_eq!(dst.get_pixel(1, 0).to_rgba_bytes(), [77, 88, 99, 0]);
}

#[test]
fn zero_extent_region_is_a_no_op() {
    let mut dst = Image::from_color(2, 2, Color::rgb(1, 1, 1));
    let src = Image::from_color(2, 2, Color::rgb(200, 200, 200));
    dst.blend(&Rect::new(0, 0, 0, 2), &src, &Rect::new(0, 0, 2, 2));
    dst.cover(&Rect::new(0, 0, 2, 0), &src, &Rect::new(0, 0, 2, 2));
    assert_eq!(dst.get_pixel(0, 0).to_rgba_bytes(), [1, 1, 1, 255]);
}

#[test]
fn pixel_blend_carries_alpha_through() {
    let mut img = Image::from_color(2, 2, Color::rgb(0, 0, 0));
    img.pixel(0, 0, Color::rgba(255, 255, 255, 128));
    let p = img.get_pixel(0, 0);
    // channels: (0 * 127 + 255 * 128) / 256 = 127; the result alpha is
    // 128 + (255 * 127) / 256 = 254
    assert_eq!(p.to_rgba_bytes(), [127, 127, 127, 254]);
    // out of bounds is ignored
    img.pixel(-1, 0, Color::rgb(9, 9, 9));
    img.pixel(0, 5, Color::rgb(9, 9, 9));
}

#[test]
fn pixel_overwrite_mode_replaces() {
    let mut img = Image::from_color(2, 2, Color::rgb(0, 0, 0));
    img.mode = RenderMode::Overwrite;
    img.pixel(1, 1, Color::rgba(5, 6, 7, 0));
    assert_eq!(img.get_pixel(1, 1).to_rgba_bytes(), [5, 6, 7, 0]);
}

#[test]
fn rect_fill_clips_against_surface() {
    let mut img = Image::from_color(4, 4, Color::rgb(0, 0, 0));
    img.rect(2, 2, 10, 10, Color::rgb(9, 0, 0));
    assert_eq!(img.get_pixel(1, 1).r(), 0);
    assert_eq!(img.get_pixel(2, 2).r(), 9);
    assert_eq!(img.get_pixel(3, 3).r(), 9);
}

#[test]
fn set_and_clear_fill_everything() {
    let mut img = Image::from_color(3, 3, Color::rgb(1, 2, 3));
    img.set(Color::rgb(7, 8, 9));
    assert_eq!(img.get_pixel(2, 2).to_rgba_bytes(), [7, 8, 9, 255]);
    img.clear();
    assert_eq!(img.get_pixel(0, 0).to_rgba_bytes(), [0, 0, 0, 255]);
}

#[test]
fn image_fast_blits_and_clips_columns() {
    let mut img = Image::from_color(4, 4, Color::rgb(0, 0, 0));
    let data = vec![Color::rgba(200, 0, 0, 255); 4];
    // a 2x2 blit at column 3 keeps only its first column
    img.image_fast(3, 0, 2, 2, &data);
    assert_eq!(img.get_pixel(3, 0).r(), 200);
    assert_eq!(img.get_pixel(3, 1).r(), 200);
    assert_eq!(img.get_pixel(2, 0).r(), 0);
}

#[test]
fn image_fast_outside_surface_is_a_no_op() {
    let mut img = Image::from_color(2, 2, Color::rgb(1, 1, 1));
    let data = vec![Color::rgb(200, 0, 0); 4];
    img.image_fast(5, 0, 2, 2, &data);
    img.image_fast(-1, 0, 2, 2, &data);
    assert_eq!(img.get_pixel(0, 0).r(), 1);
}

#[test]
fn image_fast_skips_transparent_pixels() {
    let mut img = Image::from_color(2, 2, Color::rgb(3, 3, 3));
    let data = vec![Color::rgba(200, 0, 0, 0); 4];
    img.image_fast(0, 0, 2, 2, &data);
    assert_eq!(img.get_pixel(0, 0).to_rgba_bytes(), [3, 3, 3, 255]);
}

#[test]
fn image_opaque_copies_and_drops_one_column_when_clipping() {
    let mut img = Image::from_color(4, 4, Color::rgb(0, 0, 0));
    let data = vec![Color::rgba(200, 0, 0, 0); 4];
    // fits: copies outright, alpha and all
    img.image_opaque(0, 0, 2, 2, &data);
    assert_eq!(img.get_pixel(0, 0).to_rgba_bytes(), [200, 0, 0, 0]);
    // a 2x2 blit at column 3 would cross the right edge: the clipped
    // row copies one pixel less than fits, so nothing lands
    let mut img2 = Image::from_color(4, 4, Color::rgb(0, 0, 0));
    img2.image_opaque(3, 0, 2, 2, &data);
    assert_eq!(img2.get_pixel(3, 0).r(), 0);
}

#[test]
fn image_dispatches_on_mode() {
    let data = vec![Color::rgba(50, 60, 70, 0); 4];
    let mut blending = Image::from_color(2, 2, Color::rgb(1, 1, 1));
    blending.image(0, 0, 2, 2, &data);
    // blend mode: fully transparent pixels change nothing
    assert_eq!(blending.get_pixel(0, 0).to_rgba_bytes(), [1, 1, 1, 255]);
    let mut overwriting = Image::from_color(2, 2, Color::rgb(1, 1, 1));
    overwriting.mode = RenderMode::Overwrite;
    overwriting.image(0, 0, 2, 2, &data);
    assert_eq!(overwriting.get_pixel(0, 0).to_rgba_bytes(), [50, 60, 70, 0]);
}
