use raytracer::pixel_buffer::{Pixel, PixelBuffer};

#[test]
fn new_buffer_is_zeroed() {
    let b = PixelBuffer::new(3, 2);
    assert_eq!(b.width(), 3);
    assert_eq!(b.height(), 2);
    assert_eq!(b.pitch(), 12);
    assert_eq!(b.as_bytes(), vec![0u8; 24]);
}

#[test]
fn clear_paints_every_pixel() {
    let mut b = PixelBuffer::new(2, 1);
    b.clear(Pixel::new(1, 2, 3, 4));
    assert_eq!(b.as_bytes(), vec![1, 2, 3, 4, 1, 2, 3, 4]);
}

#[test]
fn empty_buffer_has_no_bytes() {
    let b = PixelBuffer::new(0, 5);
    assert_eq!(b.pitch(), 0);
    assert!(b.as_bytes().is_empty());
}
