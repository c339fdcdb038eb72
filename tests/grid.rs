use verlet_sim::{Grid, CELL_CAPACITY};

#[test]
fn new_grid_has_one_empty_cell_per_unit() {
    let g = Grid::new(5, 3);
    assert_eq!(g.width(), 5);
    assert_eq!(g.height(), 3);
    assert_eq!(g.cell_count(), 15);
    for i in 0..15 {
        assert!(g.cell(i).iter().is_empty());
    }
}

#[test]
fn add_index_fills_the_cell_at_row_and_column() {
    let mut g = Grid::new(4, 4);
    g.add_index(7, 2, 1);
    g.add_index(9, 2, 1);
    assert_eq!(g.cell(6).iter(), vec![7, 9]);
    assert!(g.cell(9).iter().is_empty());
}

#[test]
fn full_cell_drops_further_indices() {
    let mut g = Grid::new(2, 2);
    for i in 0..6 {
        g.add_index(i, 1, 1);
    }
    assert_eq!(g.cell(3).iter(), vec![0, 1, 2, 3]);
    assert_eq!(g.cell(3).iter().len(), CELL_CAPACITY);
}

#[test]
fn clear_empties_every_cell() {
    let mut g = Grid::new(3, 3);
    g.add_index(1, 0, 0);
    g.add_index(2, 2, 2);
    g.clear();
    for i in 0..9 {
        assert!(g.cell(i).iter().is_empty());
    }
    g.add_index(5, 2, 2);
    assert_eq!(g.cell(8).iter(), vec![5]);
}

#[test]
fn nearby_cells_of_interior_cell() {
    let mut g = Grid::new(3, 3);
    for y in 0..3 {
        for x in 0..3 {
            g.add_index(y * 3 + x, x, y);
        }
    }
    let near = g.get_nearby_cells(4);
    for k in 0..9 {
        assert_eq!(near[k].iter(), vec![k]);
    }
}

#[test]
fn nearby_cells_outside_the_grid_are_empty() {
    let mut g = Grid::new(3, 2);
    for y in 0..2 {
        for x in 0..3 {
            g.add_index(100 + y * 3 + x, x, y);
        }
    }
    let near = g.get_nearby_cells(0);
    for k in [0, 1, 2, 3, 6] {
        assert!(near[k].iter().is_empty());
    }
    assert_eq!(near[4].iter(), vec![100]);
    assert_eq!(near[5].iter(), vec![101]);
    assert_eq!(near[7].iter(), vec![103]);
    assert_eq!(near[8].iter(), vec![104]);
    let near = g.get_nearby_cells(5);
    for k in [2, 5, 6, 7, 8] {
        assert!(near[k].iter().is_empty());
    }
    assert_eq!(near[0].iter(), vec![101]);
    assert_eq!(near[3].iter(), vec![104]);
    assert_eq!(near[4].iter(), vec![105]);
}
