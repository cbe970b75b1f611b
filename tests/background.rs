use raytracer::background::Background;
use raytracer::render_options::RenderOptions;
use raytracer::rgbcolor::RGBColor;

#[test]
fn gradient_starts_at_first_color() {
    let b = Background::new(RGBColor::new(10, 20, 30), RGBColor::new(200, 100, 0));
    assert_eq!(b.get_rgb(0, 100), RGBColor::new(10, 20, 30));
}

#[test]
fn gradient_reaches_second_color_at_last_fraction() {
    let b = Background::new(RGBColor::new(10, 20, 30), RGBColor::new(200, 100, 0));
    assert_eq!(b.get_rgb(100, 100), RGBColor::new(200, 100, 0));
}

#[test]
fn gradient_interpolates_both_directions() {
    let b = Background::new(RGBColor::new(255, 0, 100), RGBColor::new(0, 200, 100));
    assert_eq!(b.get_rgb(1, 4), RGBColor::new(192, 50, 100));
    assert_eq!(b.get_rgb(2, 4), RGBColor::new(128, 100, 100));
    // truncation toward zero: 255 - 3 * 255 / 4 = 255 - 191
    assert_eq!(b.get_rgb(3, 4), RGBColor::new(64, 150, 100));
}

#[test]
fn render_options_keep_their_fields() {
    let bg = Background::new(RGBColor::new(1, 2, 3), RGBColor::new(4, 5, 6));
    let o = RenderOptions::new(10, 320, 200, 50, 8, bg);
    assert_eq!(o.progress_tick_rate, 10);
    assert_eq!(o.img_width, 320);
    assert_eq!(o.img_height, 200);
    assert_eq!(o.sample_per_pixel, 50);
    assert_eq!(o.max_depth, 8);
    assert_eq!(o.background, bg);
}
