use density_map::pixel::{Cell, ALPHA_STEP, RED_STEP};

#[test]
fn steps_are_30_and_32() {
    assert_eq!(RED_STEP, 30);
    assert_eq!(ALPHA_STEP, 32);
}

#[test]
fn background_cell_is_transparent() {
    assert_eq!(Cell::background(255), Cell { r: 255, g: 255, b: 255, a: 0 });
    assert_eq!(Cell::background(0), Cell { r: 0, g: 0, b: 0, a: 0 });
}

#[test]
fn visit_below_saturation() {
    let cell = Cell { r: 0, g: 0, b: 0, a: 0 }.visited(178);
    assert_eq!(cell, Cell { r: 30, g: 178, b: 178, a: 32 });
}

#[test]
fn visit_saturates_red_at_point_intensity() {
    let cell = Cell { r: 160, g: 178, b: 178, a: 64 }.visited(178);
    assert_eq!(cell, Cell { r: 178, g: 178, b: 178, a: 96 });
}

#[test]
fn visit_saturates_alpha_at_255() {
    let cell = Cell { r: 178, g: 178, b: 178, a: 224 }.visited(178);
    assert_eq!(cell.a, 255);
    let again = cell.visited(178);
    assert_eq!(again, Cell { r: 178, g: 178, b: 178, a: 255 });
}

#[test]
fn visit_does_not_wrap_near_the_top() {
    let cell = Cell { r: 250, g: 1, b: 2, a: 250 }.visited(255);
    assert_eq!(cell, Cell { r: 255, g: 255, b: 255, a: 255 });
}

#[test]
fn visit_with_zero_point_intensity() {
    let cell = Cell { r: 9, g: 9, b: 9, a: 0 }.visited(0);
    assert_eq!(cell, Cell { r: 0, g: 0, b: 0, a: 32 });
}

#[test]
fn alpha_never_falls_for_any_cell() {
    for a in 0..=255u8 {
        let cell = Cell { r: 0, g: 0, b: 0, a }.visited(100);
        assert!(cell.a >= a);
        let expected = if a as u32 + 32 > 255 { 255 } else { a + 32 };
        assert_eq!(cell.a, expected);
    }
}

#[test]
fn red_never_falls_at_or_below_point_intensity() {
    for point in [0u8, 1, 29, 30, 31, 178, 255] {
        for r in 0..=point {
            let cell = Cell { r, g: 0, b: 0, a: 0 }.visited(point);
            assert!(cell.r >= r);
            assert!(cell.r <= point);
        }
    }
}

#[test]
fn channels_round_trip() {
    let cell = Cell { r: 1, g: 2, b: 3, a: 4 };
    assert_eq!(cell.channels(), (1, 2, 3, 4));
    assert_eq!(Cell::from_channels((1, 2, 3, 4)), cell);
}
