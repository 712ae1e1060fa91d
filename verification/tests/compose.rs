use ledmatrix::matrix::{compose, emplace, emplace_bitmap, new_canvas};
use ledmatrix::placement::{PlacedBitmap, Placement};
use ledmatrix::widget::{Shape, Widget};
use ledmatrix::battery::BatteryWidget;

fn placed(panel: usize, x: usize, y: usize, w: usize, h: usize, value: u8) -> PlacedBitmap {
    PlacedBitmap {
        place: Placement { panel, x, y, shape: Shape { x: w, y: h } },
        bitmap: vec![value; w * h],
    }
}

#[test]
fn compose_empty_is_all_off() {
    let items: Vec<PlacedBitmap> = Vec::new();
    let canvas = compose(&items, 0);
    for row in &canvas {
        assert_eq!(row, &vec![0u8; 9]);
    }
}

#[test]
fn compose_full_brightness_scenario() {
    // One panel, one placement at the origin, a 9x2 bitmap at full
    // brightness: rows 0 and 1 fully lit, rows 2..=33 entirely off.
    let items = vec![placed(0, 0, 0, 9, 2, 60)];
    let canvas = compose(&items, 0);
    assert_eq!(canvas.len(), 34);
    for i in 0..2 {
        assert_eq!(canvas[i], vec![60u8; 9]);
    }
    for i in 2..34 {
        assert_eq!(canvas[i], vec![0u8; 9]);
    }
}

#[test]
fn compose_is_deterministic() {
    let items = vec![
        placed(0, 0, 0, 9, 2, 10),
        placed(0, 3, 1, 4, 3, 20),
        placed(0, 0, 30, 9, 4, 30),
    ];
    let a = compose(&items, 0);
    let b = compose(&items, 0);
    assert_eq!(a, b);
}

#[test]
fn compose_later_placement_wins_overlap() {
    // Both placements cover (1, 3); the later one's value shows there.
    let first = placed(0, 0, 0, 9, 2, 10);
    let second = placed(0, 3, 1, 4, 3, 20);
    let items = vec![first, second];
    let canvas = compose(&items, 0);
    assert_eq!(canvas[1][3], 20);
    // A cell only the first placement covers keeps the first one's value.
    assert_eq!(canvas[0][0], 10);
    // A cell only the second placement covers shows the second one's value.
    assert_eq!(canvas[3][4], 20);
    // A cell neither covers stays off.
    assert_eq!(canvas[10][0], 0);
}

#[test]
fn compose_skips_other_panels() {
    let items = vec![placed(1, 0, 0, 9, 2, 60)];
    let canvas = compose(&items, 0);
    for row in &canvas {
        assert_eq!(row, &vec![0u8; 9]);
    }
}

#[test]
fn emplace_bitmap_copies_cell_by_cell() {
    let canvas = new_canvas();
    let bitmap: Vec<u8> = (0u8..12u8).collect();
    let shape = Shape { x: 4, y: 3 };
    let out = emplace_bitmap(canvas, &bitmap, &shape, 5, 31);
    for i in 0..3 {
        for j in 0..4 {
            assert_eq!(out[31 + i][5 + j], (i * 4 + j) as u8);
        }
    }
    assert_eq!(out[30][5], 0);
    assert_eq!(out[31][4], 0);
}

#[test]
fn emplace_widget_at_offset() {
    let mut w = BatteryWidget::new();
    w.set_reading(5, false, false);
    w.update();
    let canvas = new_canvas();
    let out = emplace(canvas, &w, 0, 30);
    // Segments 5: first row lit up to cell 3, second row up to cell 2.
    for j in 0..4 {
        assert_eq!(out[30][j], 30);
    }
    for j in 4..9 {
        assert_eq!(out[30][j], 0);
    }
    for j in 0..3 {
        assert_eq!(out[31][j], 30);
    }
    for j in 3..9 {
        assert_eq!(out[31][j], 0);
    }
    // Rows outside the placement stay off.
    assert_eq!(out[29], vec![0u8; 9]);
    assert_eq!(out[33], vec![0u8; 9]);
}
