use pixelfield::grid::{GridError, Image, Ternary};

#[test]
fn create_fills_unset() {
    let img = Image::create(4, 3).unwrap();
    assert_eq!(img.width, 4);
    assert_eq!(img.height, 3);
    assert_eq!(img.pixels.len(), 12);
    for cell in &img.pixels {
        assert_eq!(*cell, Ternary::Unset);
    }
}

#[test]
fn create_rejects_zero_dimensions() {
    assert_eq!(Image::create(0, 5), Err(GridError::InvalidDimensions));
    assert_eq!(Image::create(5, 0), Err(GridError::InvalidDimensions));
    assert_eq!(Image::create(0, 0), Err(GridError::InvalidDimensions));
}

#[test]
fn create_rejects_overflowing_dimensions() {
    assert_eq!(Image::create(u32::MAX, 2), Err(GridError::InvalidDimensions));
}

#[test]
fn get_and_set_roundtrip() {
    let mut img = Image::create(3, 2).unwrap();
    assert_eq!(img.get(2, 1), Ok(Ternary::Unset));
    assert_eq!(img.set(2, 1, Ternary::True), Ok(()));
    assert_eq!(img.get(2, 1), Ok(Ternary::True));
    assert_eq!(img.set(0, 0, Ternary::False), Ok(()));
    assert_eq!(img.get(0, 0), Ok(Ternary::False));
    // every other cell is untouched
    assert_eq!(img.get(1, 0), Ok(Ternary::Unset));
    assert_eq!(img.get(2, 0), Ok(Ternary::Unset));
    assert_eq!(img.get(0, 1), Ok(Ternary::Unset));
    assert_eq!(img.get(1, 1), Ok(Ternary::Unset));
}

#[test]
fn get_and_set_reject_out_of_bounds() {
    let mut img = Image::create(3, 2).unwrap();
    assert_eq!(img.get(3, 0), Err(GridError::OutOfBounds));
    assert_eq!(img.get(0, 2), Err(GridError::OutOfBounds));
    assert_eq!(img.set(3, 0, Ternary::True), Err(GridError::OutOfBounds));
    assert_eq!(img.set(0, 2, Ternary::True), Err(GridError::OutOfBounds));
    // a rejected write changes nothing
    for cell in &img.pixels {
        assert_eq!(*cell, Ternary::Unset);
    }
}

#[test]
fn image_new_matches_create() {
    let a = Image::new(2, 2);
    let b = Image::create(2, 2).unwrap();
    assert_eq!(a, b);
}
