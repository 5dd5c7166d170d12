use hex_terrain::HexGrid;

#[test]
fn get_and_set_height() {
    let mut grid = HexGrid::new(2, 2);
    assert_eq!(grid.get_height(3, 2), 2);
    grid.set_height(3, 2, -9);
    assert_eq!(grid.get_height(3, 2), -9);
    assert_eq!(grid.heights[3], vec![2, 2, -9]);
    assert_eq!(grid.heights[2], vec![2, 2, 2]);
    assert_eq!(grid.cells, HexGrid::new(2, 2).cells);
}

#[test]
fn an_edit_through_one_cell_shows_in_its_neighbour() {
    let mut grid = HexGrid::new(3, 3);
    let (i, j) = grid.cells[1][1].height_refs[4];
    grid.set_height(i, j, 40);
    let east = grid.cells[2][1];
    assert_eq!(grid.get_height(east.height_refs[2].0, east.height_refs[2].1), 40);
    let south = grid.cells[2][0];
    assert_eq!(grid.get_height(south.height_refs[0].0, south.height_refs[0].1), 40);
}

#[test]
fn adjust_cell_raises_and_lowers_six_corners() {
    let mut grid = HexGrid::new(3, 3);
    assert!(grid.adjust_fits(1, 1, 1));
    grid.adjust_cell(1, 1, 1);
    let refs = grid.cells[1][1].height_refs;
    let mut raised = 0;
    for i in 0..6 {
        for j in 0..4 {
            if refs.contains(&(i, j)) {
                assert_eq!(grid.heights[i][j], 3);
                raised += 1;
            } else {
                assert_eq!(grid.heights[i][j], 2);
            }
        }
    }
    assert_eq!(raised, 6);
    grid.adjust_cell(1, 1, -4);
    for (i, j) in refs {
        assert_eq!(grid.heights[i][j], -1);
    }
    grid.adjust_cell(1, 1, 0);
    for (i, j) in refs {
        assert_eq!(grid.heights[i][j], -1);
    }
}

#[test]
fn adjust_cell_counts_a_place_once_for_each_corner_that_names_it() {
    let mut grid = HexGrid::new(1, 1);
    // corners 1 and 5 name (0, 1), corners 2 and 4 name (0, 0)
    grid.adjust_cell(0, 0, 3);
    assert_eq!(grid.heights, vec![vec![8, 8], vec![5, 5]]);
    grid.adjust_cell(0, 0, -1);
    assert_eq!(grid.heights, vec![vec![6, 6], vec![4, 4]]);
}

#[test]
fn adjust_fits_tells_when_a_height_would_leave_its_range() {
    let mut grid = HexGrid::new(3, 3);
    let (i, j) = grid.cells[1][1].height_refs[3];
    grid.set_height(i, j, i32::MAX - 1);
    assert!(grid.adjust_fits(1, 1, 1));
    assert!(!grid.adjust_fits(1, 1, 2));
    assert!(grid.adjust_fits(1, 1, i32::MIN + 2));
    assert!(grid.adjust_fits(0, 0, 2));
    grid.adjust_cell(1, 1, 1);
    assert_eq!(grid.get_height(i, j), i32::MAX);
    grid.set_height(i, j, i32::MIN);
    assert!(!grid.adjust_fits(1, 1, -1));
    assert!(grid.adjust_fits(1, 1, 0));
    assert!(grid.adjust_fits(1, 1, i32::MAX - 3));
    assert!(!grid.adjust_fits(1, 1, i32::MAX - 2));
}

#[test]
fn adjust_fits_counts_places_named_twice() {
    let mut grid = HexGrid::new(1, 1);
    grid.set_height(0, 0, i32::MAX - 3);
    assert!(grid.adjust_fits(0, 0, 1));
    assert!(!grid.adjust_fits(0, 0, 2));
    grid.set_height(0, 0, 2);
    grid.set_height(1, 0, i32::MAX - 3);
    assert!(grid.adjust_fits(0, 0, 3));
    assert!(!grid.adjust_fits(0, 0, 4));
}

fn flattened(heights: [i32; 6]) -> i32 {
    let mut grid = HexGrid::new(3, 3);
    let refs = grid.cells[1][1].height_refs;
    for k in 0..6 {
        grid.set_height(refs[k].0, refs[k].1, heights[k]);
    }
    grid.flatten_cell(1, 1);
    for k in 1..6 {
        assert_eq!(grid.heights[refs[k].0][refs[k].1], grid.heights[refs[0].0][refs[0].1]);
    }
    for i in 0..6 {
        for j in 0..4 {
            if !refs.contains(&(i, j)) {
                assert_eq!(grid.heights[i][j], 2);
            }
        }
    }
    grid.heights[refs[0].0][refs[0].1]
}

#[test]
fn flatten_cell_sets_the_rounded_mean() {
    assert_eq!(flattened([2, 2, 2, 2, 2, 2]), 2);
    assert_eq!(flattened([1, 2, 3, 4, 5, 6]), 4); // 3.5
    assert_eq!(flattened([0, 0, 0, 0, 0, 2]), 0); // 0.33
    assert_eq!(flattened([0, 0, 0, 0, 0, 3]), 1); // 0.5
    assert_eq!(flattened([0, 0, 0, 0, 0, 4]), 1); // 0.67
    assert_eq!(flattened([5, 5, 5, 5, 5, 4]), 5); // 4.83
    assert_eq!(flattened([1, 1, 1, 1, 1, 3]), 1); // 1.33
}

#[test]
fn flatten_cell_rounds_halves_away_from_zero_below_zero() {
    assert_eq!(flattened([0, 0, 0, 0, 0, -3]), -1); // -0.5
    assert_eq!(flattened([0, 0, 0, 0, 0, -2]), 0); // -0.33
    assert_eq!(flattened([-1, -2, -3, -4, -5, -6]), -4); // -3.5
    assert_eq!(flattened([-5, -5, -5, -5, -5, -4]), -5);
}

#[test]
fn flatten_cell_takes_extreme_heights() {
    assert_eq!(flattened([i32::MAX; 6]), i32::MAX);
    assert_eq!(flattened([i32::MIN; 6]), i32::MIN);
    assert_eq!(flattened([i32::MAX, i32::MIN, i32::MAX, i32::MIN, i32::MAX, i32::MIN]), -1);
    assert_eq!(flattened([i32::MAX, i32::MAX, i32::MAX, i32::MAX, i32::MAX, i32::MAX - 3]), i32::MAX);
}

#[test]
fn flatten_cell_counts_places_named_twice() {
    let mut grid = HexGrid::new(1, 1);
    // corners: (1,1) (0,1) (0,0) (1,0) (0,0) (0,1)
    grid.set_height(1, 1, 1);
    grid.set_height(0, 1, 10);
    grid.set_height(0, 0, 4);
    grid.set_height(1, 0, 7);
    grid.flatten_cell(0, 0);
    // (1 + 10 + 4 + 7 + 4 + 10) / 6 = 6
    assert_eq!(grid.heights, vec![vec![6, 6], vec![6, 6]]);
}
