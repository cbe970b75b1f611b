use raytracer::rgbcolor::RGBColor;
use raytracer::surface::Surface;

#[test]
fn new_surface_is_black() {
    let s = Surface::new(2, 3, 4, 5);
    assert_eq!(s.x_offset(), 2);
    assert_eq!(s.y_offset(), 3);
    assert_eq!(s.width(), 4);
    assert_eq!(s.height(), 5);
    for y in 0..5 {
        for x in 0..4 {
            assert_eq!(s.get_color(x, y), RGBColor::new(0, 0, 0));
        }
    }
}

#[test]
fn set_then_get_returns_color() {
    let mut s = Surface::new(0, 0, 3, 2);
    s.set_color(2, 1, RGBColor::new(10, 20, 30));
    assert_eq!(s.get_color(2, 1), RGBColor::new(10, 20, 30));
    assert_eq!(s.get_color(1, 1), RGBColor::new(0, 0, 0));
    assert_eq!(s.get_color(2, 0), RGBColor::new(0, 0, 0));
}

#[test]
fn merge_reads_back_tile_pixels_at_global_position() {
    let mut img = Surface::new(0, 0, 4, 6);
    let mut tile = Surface::new(0, 2, 4, 3);
    for y in 0..3 {
        for x in 0..4 {
            tile.set_color(x, y, RGBColor::new(x as u8, y as u8, 7));
        }
    }
    img.merge(&tile);
    for y in 0..3 {
        for x in 0..4 {
            assert_eq!(img.get_color(x, y + 2), tile.get_color(x, y));
        }
    }
    for x in 0..4 {
        assert_eq!(img.get_color(x, 0), RGBColor::new(0, 0, 0));
        assert_eq!(img.get_color(x, 1), RGBColor::new(0, 0, 0));
        assert_eq!(img.get_color(x, 5), RGBColor::new(0, 0, 0));
    }
}

#[test]
fn merge_drops_what_falls_outside() {
    let mut img = Surface::new(0, 0, 3, 3);
    let mut tile = Surface::new(1, 2, 4, 4);
    for y in 0..4 {
        for x in 0..4 {
            tile.set_color(x, y, RGBColor::new(9, 9, 9));
        }
    }
    img.merge(&tile);
    assert_eq!(img.get_color(1, 2), RGBColor::new(9, 9, 9));
    assert_eq!(img.get_color(2, 2), RGBColor::new(9, 9, 9));
    assert_eq!(img.get_color(0, 2), RGBColor::new(0, 0, 0));
    assert_eq!(img.get_color(1, 1), RGBColor::new(0, 0, 0));
    assert_eq!(img.width(), 3);
    assert_eq!(img.height(), 3);
}

#[test]
fn merge_of_strips_in_any_order_fills_image() {
    let mut a = Surface::new(0, 0, 2, 1);
    let mut b = Surface::new(0, 1, 2, 1);
    a.set_color(0, 0, RGBColor::new(1, 1, 1));
    a.set_color(1, 0, RGBColor::new(2, 2, 2));
    b.set_color(0, 0, RGBColor::new(3, 3, 3));
    b.set_color(1, 0, RGBColor::new(4, 4, 4));
    let mut img = Surface::new(0, 0, 2, 2);
    img.merge(&b);
    img.merge(&a);
    assert_eq!(img.get_color(0, 0), RGBColor::new(1, 1, 1));
    assert_eq!(img.get_color(1, 0), RGBColor::new(2, 2, 2));
    assert_eq!(img.get_color(0, 1), RGBColor::new(3, 3, 3));
    assert_eq!(img.get_color(1, 1), RGBColor::new(4, 4, 4));
}

#[test]
fn empty_surface_has_no_pixels() {
    let s = Surface::new(0, 0, 0, 7);
    assert_eq!(s.width(), 0);
    assert_eq!(s.height(), 7);
}
