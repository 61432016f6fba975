use aetherloom::grid::{cell_index, index_cell, Heightfield, GRID_CELLS, GRID_LAST, GRID_WIDTH};

#[test]
fn new_field_reads_fill_everywhere() {
    let g: Heightfield<i32> = Heightfield::new(-26);
    assert_eq!(g.cell(0, 0), -26);
    assert_eq!(g.cell(GRID_LAST, GRID_LAST), -26);
    assert_eq!(g.dirty_lo_row(), 0);
    assert_eq!(g.dirty_hi_row(), -1);
}

#[test]
fn read_after_write_returns_written_value() {
    let mut g: Heightfield<i32> = Heightfield::new(0);
    g.set_cell(17, 42, 99);
    assert_eq!(g.cell(17, 42), 99);
    assert_eq!(g.cell(18, 42), 0);
    assert_eq!(g.cell(17, 41), 0);
}

#[test]
fn reads_past_an_edge_see_the_edge_cell() {
    let mut g: Heightfield<i32> = Heightfield::new(0);
    g.set_cell(0, 5, 7);
    g.set_cell(GRID_LAST, GRID_LAST, 11);
    assert_eq!(g.cell(-3, 5), 7);
    assert_eq!(g.cell(i32::MIN, 5), 7);
    assert_eq!(g.cell(400, 999), 11);
    assert_eq!(g.cell(i32::MAX, i32::MAX), 11);
}

#[test]
fn writes_off_the_grid_change_nothing() {
    let mut g: Heightfield<i32> = Heightfield::new(3);
    g.clear_dirty();
    g.set_cell(-1, 10, 50);
    g.set_cell(10, GRID_WIDTH, 50);
    g.set_cell(GRID_WIDTH, 0, 50);
    assert_eq!(g.cell(0, 10), 3);
    assert_eq!(g.cell(10, GRID_LAST), 3);
    assert_eq!(g.dirty_lo_row(), GRID_WIDTH);
    assert_eq!(g.dirty_hi_row(), -1);
}

#[test]
fn dirty_band_covers_written_rows() {
    let mut g: Heightfield<i32> = Heightfield::new(0);
    g.clear_dirty();
    assert_eq!(g.dirty_lo_row(), 320);
    assert_eq!(g.dirty_hi_row(), -1);
    g.set_cell(5, 100, 1);
    assert_eq!((g.dirty_lo_row(), g.dirty_hi_row()), (100, 100));
    g.set_cell(5, 30, 1);
    g.set_cell(5, 200, 1);
    g.set_cell(5, 150, 1);
    assert_eq!((g.dirty_lo_row(), g.dirty_hi_row()), (30, 200));
    g.mark_all_dirty();
    assert_eq!((g.dirty_lo_row(), g.dirty_hi_row()), (0, GRID_LAST));
}

#[test]
fn cell_index_round_trips() {
    assert_eq!(cell_index(0, 0), 0);
    assert_eq!(cell_index(5, 2), 645);
    assert_eq!(cell_index(GRID_LAST, GRID_LAST), GRID_CELLS - 1);
    assert_eq!(index_cell(645), (5, 2));
    assert_eq!(index_cell((GRID_CELLS - 1) as i32), (GRID_LAST, GRID_LAST));
    for k in [0i32, 1, 319, 320, 51_234, 102_399] {
        let (i, j) = index_cell(k);
        assert_eq!(cell_index(i, j), k as usize);
    }
}
