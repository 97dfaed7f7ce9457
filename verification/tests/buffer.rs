use density_map::buffer::AccumulationBuffer;
use density_map::pixel::Cell;

fn span_for(scale: f32) -> u32 {
    (2.0 * std::f32::consts::PI * scale) as u32
}

fn point_level() -> u8 {
    (0.7f32 * 255.0) as u8
}

#[test]
fn side_is_span_plus_one_for_scale_1() {
    let buffer = AccumulationBuffer::new(span_for(1.0), 255, point_level()).unwrap();
    assert_eq!(buffer.width(), 7);
    assert_eq!(buffer.height(), 7);
}

#[test]
fn side_is_span_plus_one_for_scale_50() {
    let buffer = AccumulationBuffer::new(span_for(50.0), 255, point_level()).unwrap();
    assert_eq!(buffer.width(), 315);
    assert_eq!(buffer.height(), 315);
}

#[test]
fn side_is_span_plus_one_for_scale_200() {
    let buffer = AccumulationBuffer::new(span_for(200.0), 255, point_level()).unwrap();
    assert_eq!(buffer.width(), 1257);
    assert_eq!(buffer.height(), 1257);
}

#[test]
fn span_zero_gives_one_cell() {
    let buffer = AccumulationBuffer::new(0, 9, 200).unwrap();
    assert_eq!(buffer.width(), 1);
    assert_eq!(buffer.height(), 1);
    assert_eq!(buffer.get(0, 0), Some(Cell { r: 9, g: 9, b: 9, a: 0 }));
    assert_eq!(buffer.get(1, 0), None);
    assert_eq!(buffer.get(0, 1), None);
}

#[test]
fn span_too_large_is_refused() {
    assert!(AccumulationBuffer::new(u32::MAX, 0, 0).is_none());
    assert!(AccumulationBuffer::new(u32::MAX - 1, 0, 0).is_none());
}

#[test]
fn new_buffer_is_background_everywhere() {
    let buffer = AccumulationBuffer::new(6, 255, 178).unwrap();
    for y in 0..7 {
        for x in 0..7 {
            assert_eq!(buffer.get(x, y), Some(Cell { r: 255, g: 255, b: 255, a: 0 }));
        }
    }
    assert_eq!(buffer.background(), 255);
    assert_eq!(buffer.point_intensity(), 178);
}

#[test]
fn reset_restores_background_everywhere() {
    let mut buffer = AccumulationBuffer::new(4, 17, 178).unwrap();
    for y in 0..5 {
        for x in 0..5 {
            buffer.visit(x, y);
            buffer.visit(x, y);
        }
    }
    buffer.reset();
    for y in 0..5 {
        for x in 0..5 {
            assert_eq!(buffer.get(x, y), Some(Cell { r: 17, g: 17, b: 17, a: 0 }));
        }
    }
    assert_eq!(buffer.width(), 5);
    assert_eq!(buffer.height(), 5);
}

#[test]
fn reset_with_no_visit_changes_nothing() {
    let mut buffer = AccumulationBuffer::new(3, 40, 90).unwrap();
    let before = buffer.to_rgba_bytes();
    buffer.reset();
    assert_eq!(buffer.to_rgba_bytes(), before);
}

#[test]
fn first_visit_from_origin_state_lands_on_3_3() {
    let point = point_level();
    assert_eq!(point, 178);
    let mut buffer = AccumulationBuffer::new(span_for(1.0), 0, point).unwrap();
    let pi = std::f32::consts::PI;
    let x = ((0.0f32 + pi) * 1.0).floor() as u32;
    let y = ((0.0f32 + pi) * 1.0).floor() as u32;
    assert_eq!((x, y), (3, 3));
    assert!(buffer.plot(x, y));
    assert_eq!(buffer.get(3, 3), Some(Cell { r: 30, g: 178, b: 178, a: 32 }));
}

#[test]
fn visit_touches_one_cell_only() {
    let mut buffer = AccumulationBuffer::new(6, 0, 178).unwrap();
    buffer.visit(3, 2);
    for y in 0..7 {
        for x in 0..7 {
            let expected = if (x, y) == (3, 2) {
                Cell { r: 30, g: 178, b: 178, a: 32 }
            } else {
                Cell { r: 0, g: 0, b: 0, a: 0 }
            };
            assert_eq!(buffer.get(x, y), Some(expected));
        }
    }
}

#[test]
fn ten_visits_saturate_alpha_and_red() {
    let mut buffer = AccumulationBuffer::new(6, 0, 178).unwrap();
    for _ in 0..10 {
        buffer.visit(2, 5);
    }
    assert_eq!(buffer.get(2, 5), Some(Cell { r: 178, g: 178, b: 178, a: 255 }));
}

#[test]
fn ten_visits_with_full_point_intensity() {
    let mut buffer = AccumulationBuffer::new(6, 0, 255).unwrap();
    for _ in 0..10 {
        buffer.visit(1, 1);
    }
    assert_eq!(buffer.get(1, 1), Some(Cell { r: 255, g: 255, b: 255, a: 255 }));
}

#[test]
fn red_and_alpha_climb_visit_by_visit() {
    let mut buffer = AccumulationBuffer::new(2, 0, 100).unwrap();
    let expected_red: [u8; 9] = [30, 60, 90, 100, 100, 100, 100, 100, 100];
    let expected_alpha: [u8; 9] = [32, 64, 96, 128, 160, 192, 224, 255, 255];
    let mut last = buffer.get(1, 2).unwrap();
    for i in 0..9 {
        buffer.visit(1, 2);
        let cell = buffer.get(1, 2).unwrap();
        assert_eq!(cell.r, expected_red[i]);
        assert_eq!(cell.a, expected_alpha[i]);
        assert_eq!(cell.g, 100);
        assert_eq!(cell.b, 100);
        assert!(cell.r >= last.r);
        assert!(cell.a >= last.a);
        last = cell;
    }
}

#[test]
fn first_visit_lowers_red_above_point_intensity() {
    let mut buffer = AccumulationBuffer::new(2, 255, 178).unwrap();
    buffer.visit(0, 0);
    assert_eq!(buffer.get(0, 0), Some(Cell { r: 178, g: 178, b: 178, a: 32 }));
    buffer.visit(0, 0);
    assert_eq!(buffer.get(0, 0), Some(Cell { r: 178, g: 178, b: 178, a: 64 }));
}

#[test]
fn plot_out_of_range_is_dropped() {
    let mut buffer = AccumulationBuffer::new(6, 12, 178).unwrap();
    let before = buffer.to_rgba_bytes();
    assert!(!buffer.plot(7, 0));
    assert!(!buffer.plot(0, 7));
    assert!(!buffer.plot(7, 7));
    assert!(!buffer.plot(u32::MAX, 3));
    assert!(!buffer.plot(3, u32::MAX));
    assert_eq!(buffer.to_rgba_bytes(), before);
}

#[test]
fn plot_in_range_visits() {
    let mut buffer = AccumulationBuffer::new(6, 0, 178).unwrap();
    assert!(buffer.plot(6, 6));
    assert!(buffer.plot(0, 0));
    assert!(buffer.plot(6, 6));
    assert_eq!(buffer.get(6, 6), Some(Cell { r: 60, g: 178, b: 178, a: 64 }));
    assert_eq!(buffer.get(0, 0), Some(Cell { r: 30, g: 178, b: 178, a: 32 }));
    assert_eq!(buffer.get(6, 0), Some(Cell { r: 0, g: 0, b: 0, a: 0 }));
}

#[test]
fn bytes_are_row_major_rgba() {
    let mut buffer = AccumulationBuffer::new(2, 5, 200).unwrap();
    buffer.visit(1, 0);
    buffer.visit(0, 2);
    buffer.visit(0, 2);
    let bytes = buffer.to_rgba_bytes();
    assert_eq!(bytes.len(), 4 * 3 * 3);
    let mut expected: Vec<u8> = Vec::new();
    for y in 0..3u32 {
        for x in 0..3u32 {
            let cell = buffer.get(x, y).unwrap();
            expected.push(cell.r);
            expected.push(cell.g);
            expected.push(cell.b);
            expected.push(cell.a);
        }
    }
    assert_eq!(bytes, expected);
    assert_eq!(&bytes[4..8], &[35, 200, 200, 32]);
    assert_eq!(&bytes[24..28], &[65, 200, 200, 64]);
    assert_eq!(&bytes[0..4], &[5, 5, 5, 0]);
}

#[test]
fn bytes_load_as_an_image_of_the_same_pixels() {
    let mut buffer = AccumulationBuffer::new(3, 7, 150).unwrap();
    buffer.visit(2, 1);
    let loaded: image::RgbaImage =
        image::ImageBuffer::from_raw(buffer.width(), buffer.height(), buffer.to_rgba_bytes()).unwrap();
    assert_eq!(loaded.get_pixel(2, 1).0, [37, 150, 150, 32]);
    assert_eq!(loaded.get_pixel(1, 2).0, [7, 7, 7, 0]);
}
