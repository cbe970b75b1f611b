use raytracer::math::clamp;

#[test]
fn clamp_integers() {
    assert_eq!(clamp(5u8, 1, 3), 3);
    assert_eq!(clamp(0i32, 1, 3), 1);
    assert_eq!(clamp(2u64, 1, 3), 2);
    assert_eq!(clamp(255u8, 0, 255), 255);
}

#[test]
fn clamp_floats() {
    assert_eq!(clamp(1.5f64, 0.0, 0.999), 0.999);
    assert_eq!(clamp(-0.5f64, 0.0, 0.999), 0.0);
    assert_eq!(clamp(0.25f64, 0.0, 0.999), 0.25);
}
