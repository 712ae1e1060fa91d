use ledmatrix::battery::BatteryWidget;
use ledmatrix::clock::ClockWidget;
use ledmatrix::cpu::{cpu_shape, render_cpu_merged};
use ledmatrix::widget::{write_char, Shape, Widget};

#[test]
fn write_char_paints_head_and_bits() {
    let mut m = vec![0u8; 27];
    write_char(&mut m, 0, 'N');
    // 'N' is 0x4E = 0100_1110, painted most significant bit first.
    assert_eq!(&m[..9], &[60, 20, 100, 20, 20, 100, 100, 100, 20]);
    for k in 9..27 {
        assert_eq!(m[k], 0);
    }
}

#[test]
fn write_char_respects_offset() {
    let mut m = vec![7u8; 27];
    write_char(&mut m, 9, 'A');
    // Cells before and after the letter keep their old values.
    for k in 0..9 {
        assert_eq!(m[k], 7);
    }
    for k in 18..27 {
        assert_eq!(m[k], 7);
    }
    // 'A' is 0x41 = 0100_0001.
    assert_eq!(&m[9..18], &[60, 20, 100, 20, 20, 20, 20, 20, 100]);
}

#[test]
fn battery_new_shape_and_empty_bitmap() {
    let w = BatteryWidget::new();
    assert_eq!(*w.get_shape(), Shape { x: 9, y: 2 });
    assert!(w.get_matrix().is_empty());
}

#[test]
fn battery_bar_for_five_segments() {
    let mut w = BatteryWidget::new();
    w.set_reading(5, false, false);
    w.update();
    let m = w.get_matrix();
    assert_eq!(m.len(), 18);
    // Segments 5: first row lit through cell 3, second row through cell 2.
    assert_eq!(&m[..9], &[30, 30, 30, 30, 0, 0, 0, 0, 0]);
    assert_eq!(&m[9..], &[30, 30, 30, 0, 0, 0, 0, 0, 0]);
}

#[test]
fn battery_full_bar() {
    let mut w = BatteryWidget::new();
    w.set_reading(17, false, false);
    w.update();
    let m = w.get_matrix();
    assert_eq!(m, &vec![30u8; 18]);
}

#[test]
fn battery_charging_blink_alternates() {
    let mut w = BatteryWidget::new();
    w.set_reading(5, true, false);
    // Segments 5 is odd, so the blink cell is cell 3 of the first row.
    w.update();
    let first = w.get_matrix().clone();
    assert_eq!(first[3], 0);
    w.update();
    let second = w.get_matrix().clone();
    assert_eq!(second[3], 30);
    // Away from the blink cell the two frames agree.
    assert_eq!(&first[..3], &second[..3]);
    assert_eq!(&first[4..], &second[4..]);
}

#[test]
fn battery_nearly_full_suppresses_blink() {
    let mut w = BatteryWidget::new();
    w.set_reading(17, true, true);
    w.update();
    let first = w.get_matrix().clone();
    w.update();
    let second = w.get_matrix().clone();
    assert_eq!(first, second);
    assert_eq!(first, vec![30u8; 18]);
}

#[test]
fn battery_reading_is_clamped() {
    let mut w = BatteryWidget::new();
    w.set_reading(250, false, false);
    w.update();
    // A nonsense reading degrades to a full bar.
    assert_eq!(w.get_matrix(), &vec![30u8; 18]);
}

#[test]
fn clock_digit_one() {
    let d = ClockWidget::render_digit(1);
    assert_eq!(
        d,
        vec![0, 0, 60, 0, 30, 60, 0, 0, 60, 0, 0, 60, 0, 0, 60]
    );
}

#[test]
fn clock_number_twelve() {
    let n = ClockWidget::render_number(12);
    assert_eq!(n.len(), 45);
    for row in 0..5 {
        let d1 = ClockWidget::render_digit(1);
        let d2 = ClockWidget::render_digit(2);
        // Columns 0, 4 and 8 stay off; 1..=3 show the tens digit and
        // 5..=7 the ones digit.
        assert_eq!(n[row * 9], 0);
        assert_eq!(n[row * 9 + 4], 0);
        assert_eq!(n[row * 9 + 8], 0);
        for c in 0..3 {
            assert_eq!(n[row * 9 + 1 + c], d1[row * 3 + c]);
            assert_eq!(n[row * 9 + 5 + c], d2[row * 3 + c]);
        }
    }
}

#[test]
fn clock_render_time_layout() {
    let m = ClockWidget::render_time(23, 59);
    assert_eq!(m.len(), 99);
    let hours = ClockWidget::render_number(23);
    let minutes = ClockWidget::render_number(59);
    assert_eq!(&m[..45], hours.as_slice());
    assert_eq!(&m[45..54], &[0u8; 9]);
    assert_eq!(&m[54..], minutes.as_slice());
}

#[test]
fn clock_update_shows_some_valid_time() {
    let mut w = ClockWidget::new();
    assert_eq!(*w.get_shape(), Shape { x: 9, y: 11 });
    w.update();
    let m = w.get_matrix();
    assert_eq!(m.len(), 99);
    let mut found = false;
    for h in 0..24u32 {
        for mi in 0..60u32 {
            if *m == ClockWidget::render_time(h, mi) {
                found = true;
            }
        }
    }
    assert!(found);
}

#[test]
fn cpu_shape_by_mode() {
    assert_eq!(cpu_shape(12, true), Shape { x: 9, y: 8 });
    assert_eq!(cpu_shape(12, false), Shape { x: 9, y: 12 });
}

#[test]
fn cpu_merged_one_pair_full_load() {
    let m = render_cpu_merged(&vec![100u8, 100u8]);
    assert_eq!(m.len(), 72);
    for idy in 0..8 {
        assert_eq!(m[idy * 9], 60);
        for idx in 1..9 {
            assert_eq!(m[idy * 9 + idx], 0);
        }
    }
}

#[test]
fn cpu_merged_half_load_fills_bottom_half() {
    // Mean usage 40 lights the rows whose thresholds are 40, 30, 20, 10
    // and 0: the bottom five rows.
    let m = render_cpu_merged(&vec![40u8, 40u8]);
    for idy in 0..3 {
        assert_eq!(m[idy * 9], 0);
    }
    for idy in 3..8 {
        assert_eq!(m[idy * 9], 60);
    }
}
