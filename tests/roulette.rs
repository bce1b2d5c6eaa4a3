use microbit_demo::roulette::{path_position, Roulette, HOLD_MS, PATH_LEN};

fn lit_cells(m: &[[u8; 5]; 5]) -> Vec<(usize, usize)> {
    let mut cells = Vec::new();
    for r in 0..5 {
        for c in 0..5 {
            if m[r][c] != 0 {
                cells.push((r, c));
            }
        }
    }
    cells
}

#[test]
fn new_roulette_is_dark() {
    let r = Roulette::new();
    assert!(lit_cells(&r.frame()).is_empty());
    assert_eq!(r.cursor, PATH_LEN - 1);
}

#[test]
fn first_step_lights_cell_right_of_corner() {
    let mut r = Roulette::new();
    r.step();
    assert_eq!(lit_cells(&r.frame()), vec![(0, 1)]);
    assert_eq!(r.cursor, 0);
}

#[test]
fn path_positions_follow_the_border_clockwise() {
    let expected = [
        (0, 1), (0, 2), (0, 3), (0, 4),
        (1, 4), (2, 4), (3, 4), (4, 4),
        (4, 3), (4, 2), (4, 1), (4, 0),
        (3, 0), (2, 0), (1, 0), (0, 0),
    ];
    for k in 0..PATH_LEN {
        assert_eq!(path_position(k), expected[k]);
    }
}

#[test]
fn one_cycle_lights_each_border_cell_once() {
    let mut r = Roulette::new();
    let mut seen = Vec::new();
    for _ in 0..PATH_LEN {
        r.step();
        let lit = lit_cells(&r.frame());
        assert_eq!(lit.len(), 1);
        assert!(!seen.contains(&lit[0]));
        seen.push(lit[0]);
    }
    assert_eq!(seen.len(), 16);
    for &(row, col) in &seen {
        assert!(row == 0 || row == 4 || col == 0 || col == 4);
    }
    r.step();
    assert_eq!(lit_cells(&r.frame()), vec![seen[0]]);
}

#[test]
fn frame_hold_is_fifty_ms() {
    assert_eq!(HOLD_MS, 50);
}
