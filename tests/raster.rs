use perlin::lattice::ConfigError;
use perlin::raster::{pixel_count, to_rgba, OPAQUE};

#[test]
fn pixel_count_values() {
    assert_eq!(pixel_count(2, 2), Ok(4));
    assert_eq!(pixel_count(640, 480), Ok(307_200));
    assert_eq!(pixel_count(0, 3), Err(ConfigError::EmptyField));
    assert_eq!(pixel_count(3, 0), Err(ConfigError::EmptyField));
}

#[test]
fn pixel_count_refuses_unaddressable_fields() {
    assert_eq!(pixel_count(u32::MAX, u32::MAX), Err(ConfigError::TooLarge));
}

#[test]
fn two_by_two_field_gives_sixteen_opaque_bytes() {
    let n = pixel_count(2, 2).unwrap();
    let levels: Vec<u8> = vec![0, 85, 170, 255];
    assert_eq!(levels.len(), n);
    let bytes = to_rgba(&levels);
    assert_eq!(bytes.len(), 16);
    for p in 0..4 {
        assert_eq!(bytes[4 * p + 3], OPAQUE);
        for c in 0..3 {
            assert_eq!(bytes[4 * p + c], levels[p]);
        }
    }
}

#[test]
fn rgba_exact_bytes() {
    assert_eq!(to_rgba(&vec![7, 127]), vec![7, 7, 7, 255, 127, 127, 127, 255]);
    assert_eq!(to_rgba(&vec![]), Vec::<u8>::new());
}
