use ledmatrix::matrix::{decode, encode, new_canvas, transpose};

fn sample_bool_grid() -> Vec<Vec<bool>> {
    let mut g: Vec<Vec<bool>> = Vec::new();
    for i in 0..34 {
        let mut row: Vec<bool> = Vec::new();
        for j in 0..9 {
            row.push((i * 9 + j) * 7 % 13 < 5);
        }
        g.push(row);
    }
    g
}

#[test]
fn encode_all_off_is_all_zero() {
    let mut g: Vec<Vec<bool>> = Vec::new();
    for _ in 0..34 {
        g.push(vec![false; 9]);
    }
    let packed = encode(&g);
    assert_eq!(packed, vec![0u8; 39]);
}

#[test]
fn encode_first_row_lsb_first() {
    // Row 0 fully lit: cells 0..=7 fill byte 0, cell 8 is bit 0 of byte 1.
    let mut g: Vec<Vec<bool>> = Vec::new();
    g.push(vec![true; 9]);
    for _ in 1..34 {
        g.push(vec![false; 9]);
    }
    let packed = encode(&g);
    assert_eq!(packed.len(), 39);
    assert_eq!(packed[0], 0xFF);
    assert_eq!(packed[1], 0x01);
    for b in 2..39 {
        assert_eq!(packed[b], 0);
    }
}

#[test]
fn encode_single_cell() {
    // Cell (1, 2) is cell number 11: bit 3 of byte 1.
    let mut g: Vec<Vec<bool>> = Vec::new();
    for _ in 0..34 {
        g.push(vec![false; 9]);
    }
    g[1][2] = true;
    let packed = encode(&g);
    assert_eq!(packed[1], 0x08);
    assert_eq!(packed[0], 0);
}

#[test]
fn pattern_round_trip() {
    let g = sample_bool_grid();
    let packed = encode(&g);
    let back = decode(&packed);
    assert_eq!(back, g);
}

#[test]
fn encode_reproducible() {
    let g = sample_bool_grid();
    let a = encode(&g);
    let b = encode(&g);
    assert_eq!(a, b);
}

fn sample_canvas() -> Vec<Vec<u8>> {
    let mut g = new_canvas();
    for i in 0..34 {
        for j in 0..9 {
            g[i][j] = ((i * 9 + j) % 251) as u8;
        }
    }
    g
}

#[test]
fn transpose_swaps_rows_and_columns() {
    let g = sample_canvas();
    let t = transpose(&g, 34, 9);
    assert_eq!(t.len(), 9);
    for col in &t {
        assert_eq!(col.len(), 34);
    }
    for i in 0..34 {
        for j in 0..9 {
            assert_eq!(t[j][i], g[i][j]);
        }
    }
}

#[test]
fn transpose_self_inverse() {
    let g = sample_canvas();
    let t = transpose(&g, 34, 9);
    let back = transpose(&t, 9, 34);
    assert_eq!(back, g);
}

#[test]
fn new_canvas_is_all_off() {
    let c = new_canvas();
    assert_eq!(c.len(), 34);
    for row in &c {
        assert_eq!(row, &vec![0u8; 9]);
    }
}
