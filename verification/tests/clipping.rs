use terming::{clip, clip_axis, Clip, Coordinate, Dimension, Window};

#[test]
fn object_inside_is_not_cut() {
    assert_eq!(clip_axis(8, 10, 40), Some(Clip { dst: 8, src: 0, len: 10 }));
    assert_eq!(clip_axis(0, 40, 40), Some(Clip { dst: 0, src: 0, len: 40 }));
}

#[test]
fn near_edge_cuts_the_source() {
    assert_eq!(clip_axis(-2, 4, 40), Some(Clip { dst: 0, src: 2, len: 2 }));
    assert_eq!(clip_axis(-3, 4, 40), Some(Clip { dst: 0, src: 3, len: 1 }));
}

#[test]
fn far_edge_cuts_the_extent() {
    assert_eq!(clip_axis(38, 4, 40), Some(Clip { dst: 38, src: 0, len: 2 }));
    assert_eq!(clip_axis(39, 4, 40), Some(Clip { dst: 39, src: 0, len: 1 }));
}

#[test]
fn both_edges_cut_a_large_object() {
    assert_eq!(clip_axis(-5, 100, 40), Some(Clip { dst: 0, src: 5, len: 40 }));
}

#[test]
fn object_off_canvas_is_dropped() {
    assert_eq!(clip_axis(-100, 4, 40), None);
    assert_eq!(clip_axis(-4, 4, 40), None);
    assert_eq!(clip_axis(40, 4, 40), None);
    assert_eq!(clip_axis(1000, 4, 40), None);
    assert_eq!(clip_axis(i32::MIN, 4, 40), None);
    assert_eq!(clip_axis(i32::MAX, usize::MAX, 40), None);
}

#[test]
fn nothing_to_show_is_dropped() {
    assert_eq!(clip_axis(3, 0, 40), None);
    assert_eq!(clip_axis(0, 4, 0), None);
    assert_eq!(clip_axis(-1, 0, 40), None);
}

#[test]
fn extreme_placements_do_not_overflow() {
    assert_eq!(
        clip_axis(i32::MIN, usize::MAX, usize::MAX),
        Some(Clip { dst: 0, src: 1 << 31, len: usize::MAX - (1 << 31) })
    );
    assert_eq!(clip_axis(0, usize::MAX, 5), Some(Clip { dst: 0, src: 0, len: 5 }));
}

#[test]
fn clip_gives_equal_windows_on_both_sides() {
    let clipped = clip(
        Coordinate { x: -2, y: 28 },
        Dimension { x: 4, y: 4 },
        Dimension { x: 40, y: 30 },
    );
    assert_eq!(
        clipped,
        Some((Window { x0: 0, x1: 2, y0: 28, y1: 30 }, Window { x0: 2, x1: 4, y0: 0, y1: 2 }))
    );
}

#[test]
fn clip_drops_what_misses_on_either_axis() {
    let canvas = Dimension { x: 40, y: 30 };
    let size = Dimension { x: 4, y: 4 };
    assert_eq!(clip(Coordinate { x: -100, y: -100 }, size, canvas), None);
    assert_eq!(clip(Coordinate { x: 5, y: 30 }, size, canvas), None);
    assert_eq!(clip(Coordinate { x: -4, y: 5 }, size, canvas), None);
}
