use torch::grid::Grid;

#[test]
fn new_grid_is_filled_with_the_value() {
    let grid = Grid::new((2, 3), 'x');
    assert_eq!(grid.size(), (2, 3));
    for line in 0..2 {
        for col in 0..3 {
            assert_eq!(*grid.index((line, col)), 'x');
        }
    }
}

#[test]
fn in_bounds_is_strict() {
    let grid = Grid::new((2, 3), 0u8);
    assert!(grid.in_bounds((0, 0)));
    assert!(grid.in_bounds((1, 2)));
    assert!(!grid.in_bounds((2, 0)));
    assert!(!grid.in_bounds((0, 3)));
    assert!(!Grid::new((0, 0), 0u8).in_bounds((0, 0)));
}

#[test]
fn index_is_row_major() {
    let mut grid = Grid::new((2, 3), 0u8);
    *grid.index_mut((1, 0)) = 7;
    *grid.index_mut((0, 2)) = 9;
    assert_eq!(*grid.index((1, 0)), 7);
    assert_eq!(*grid.index((0, 2)), 9);
    let runs = grid.windows(6);
    assert_eq!(runs, vec![&[0, 0, 9, 7, 0, 0][..]]);
}

#[test]
fn fill_overwrites_everything() {
    let mut grid = Grid::new((2, 2), String::from("a"));
    *grid.index_mut((1, 1)) = String::from("b");
    grid.fill(String::from("c"));
    assert_eq!(grid.size(), (2, 2));
    for line in 0..2 {
        for col in 0..2 {
            assert_eq!(grid.index((line, col)), "c");
        }
    }
}

#[test]
fn resize_keeps_the_row_major_order() {
    let mut grid = Grid::new((2, 2), 0u8);
    *grid.index_mut((0, 0)) = 1;
    *grid.index_mut((0, 1)) = 2;
    *grid.index_mut((1, 0)) = 3;
    *grid.index_mut((1, 1)) = 4;
    grid.resize((2, 3), 9);
    assert_eq!(grid.size(), (2, 3));
    // The values keep their order, not their positions.
    assert_eq!(grid.windows(6), vec![&[1, 2, 3, 4, 9, 9][..]]);
    grid.resize((1, 3), 9);
    assert_eq!(grid.size(), (1, 3));
    assert_eq!(grid.windows(3), vec![&[1, 2, 3][..]]);
    grid.resize((0, 0), 9);
    assert_eq!(grid.size(), (0, 0));
    assert!(grid.windows(1).is_empty());
}

#[test]
fn windows_overlap() {
    let mut grid = Grid::new((1, 4), 0u8);
    for col in 0..4 {
        *grid.index_mut((0, col)) = col as u8;
    }
    assert_eq!(grid.windows(2), vec![&[0, 1][..], &[1, 2][..], &[2, 3][..]]);
    assert_eq!(grid.windows(4), vec![&[0, 1, 2, 3][..]]);
    assert!(grid.windows(5).is_empty());
    assert_eq!(grid.windows(1).len(), 4);
}
