use terming::interchange::encode;
use terming::{draw_line, rectangle, Coordinate, Dimension, EngineError, MAX_CELLS};

#[test]
fn rectangle_is_a_hollow_outline() {
    let region = rectangle(Dimension { x: 10, y: 8 }).unwrap();
    assert_eq!(region.width(), 10);
    assert_eq!(region.height(), 8);
    for y in 0..8 {
        for x in 0..10 {
            let border = x == 0 || x == 9 || y == 0 || y == 7;
            let expected = if border { "X" } else { " " };
            assert_eq!(region.get(x, y).to_string(), expected, "at ({}, {})", x, y);
        }
    }
}

#[test]
fn rectangle_rows_read_as_expected() {
    let rows = encode(&rectangle(Dimension { x: 4, y: 3 }).unwrap());
    let line = |s: &str| s.chars().map(|c| c.to_string()).collect::<Vec<String>>();
    assert_eq!(rows, vec![line("XXXX"), line("X  X"), line("XXXX")]);
}

#[test]
fn smallest_rectangles_are_all_border() {
    let rows = encode(&rectangle(Dimension { x: 1, y: 2 }).unwrap());
    assert_eq!(rows, vec![vec!["X".to_string()], vec!["X".to_string()]]);
    let rows = encode(&rectangle(Dimension { x: 2, y: 2 }).unwrap());
    assert_eq!(
        rows,
        vec![vec!["X".to_string(), "X".to_string()], vec!["X".to_string(), "X".to_string()]]
    );
}

#[test]
fn rectangle_needs_two_rows_and_a_column() {
    assert_eq!(rectangle(Dimension { x: 10, y: 1 }).err(), Some(EngineError::InvalidDimension));
    assert_eq!(rectangle(Dimension { x: 10, y: 0 }).err(), Some(EngineError::InvalidDimension));
    assert_eq!(rectangle(Dimension { x: 0, y: 8 }).err(), Some(EngineError::InvalidDimension));
    assert_eq!(rectangle(Dimension { x: 0, y: 0 }).err(), Some(EngineError::InvalidDimension));
}

#[test]
fn rectangle_too_large_is_refused() {
    assert_eq!(
        rectangle(Dimension { x: MAX_CELLS, y: 2 }).err(),
        Some(EngineError::InvalidDimension)
    );
    assert_eq!(
        rectangle(Dimension { x: usize::MAX, y: usize::MAX }).err(),
        Some(EngineError::InvalidDimension)
    );
}

#[test]
fn line_fills_its_bounding_box() {
    let region = draw_line(Coordinate { x: 3, y: 0 }).unwrap();
    assert_eq!(region.width(), 4);
    assert_eq!(region.height(), 1);
    assert_eq!(encode(&region), vec![vec!["X".to_string(); 4]]);
    let region = draw_line(Coordinate { x: 2, y: 1 }).unwrap();
    assert_eq!(encode(&region), vec![vec!["X".to_string(); 3], vec!["X".to_string(); 3]]);
}

#[test]
fn line_of_no_length_is_one_cell() {
    let region = draw_line(Coordinate { x: 0, y: 0 }).unwrap();
    assert_eq!(encode(&region), vec![vec!["X".to_string()]]);
}

#[test]
fn line_uses_the_magnitude_of_its_components() {
    let region = draw_line(Coordinate { x: -3, y: -2 }).unwrap();
    assert_eq!(region.width(), 4);
    assert_eq!(region.height(), 3);
    assert_eq!(encode(&region), vec![vec!["X".to_string(); 4]; 3]);
}

#[test]
fn line_too_long_is_refused() {
    assert_eq!(
        draw_line(Coordinate { x: i32::MIN, y: 0 }).err(),
        Some(EngineError::InvalidDimension)
    );
    assert_eq!(
        draw_line(Coordinate { x: i32::MAX, y: i32::MIN }).err(),
        Some(EngineError::InvalidDimension)
    );
    assert_eq!(
        draw_line(Coordinate { x: 4096, y: 4095 }).err(),
        Some(EngineError::InvalidDimension)
    );
    assert!(draw_line(Coordinate { x: 4095, y: -4095 }).is_ok());
}
