use std::collections::HashSet;
use torch::shadow::cast;
use torch::shadow::should_exclude;
use torch::shadow::transform;
use torch::shadow::visible;
use torch::shadow::GridMap;
use torch::shadow::Occluder;
use torch::shadow::Slope;

#[derive(Clone, Copy, Debug, PartialEq)]
struct Tile {
    wall: bool,
    seen: u32,
}

impl Occluder for Tile {
    fn opaque(&self) -> bool {
        self.wall
    }

    fn occludes(&self) -> bool {
        self.wall
    }
}

struct Field {
    tiles: Vec<Tile>,
    width: u16,
    height: u16,
}

impl Field {
    fn open(width: u16, height: u16) -> Field {
        let tile = Tile { wall: false, seen: 0 };
        Field { tiles: vec![tile; width as usize * height as usize], width, height }
    }

    fn wall(mut self, x: u16, y: u16) -> Field {
        self.index_mut((x, y)).wall = true;
        self
    }
}

impl GridMap for Field {
    type Output = Tile;

    fn inside(&self, x: u16, y: u16) -> bool {
        x < self.width && y < self.height
    }

    fn occluded(&self, x: u16, y: u16) -> bool {
        self.index((x, y)).wall
    }

    fn in_bounds(&self, x: u16, y: u16) -> bool {
        x < self.width && y < self.height
    }

    fn index(&self, pos: (u16, u16)) -> &Tile {
        &self.tiles[pos.1 as usize * self.width as usize + pos.0 as usize]
    }

    fn index_mut(&mut self, pos: (u16, u16)) -> &mut Tile {
        &mut self.tiles[pos.1 as usize * self.width as usize + pos.0 as usize]
    }
}

fn visited(field: &mut Field, pos: (u16, u16), radius: u16) -> Vec<(u16, u16)> {
    let mut cells = Vec::new();
    cast(field, pos, radius, |_: &mut Field, cell: (u16, u16)| -> Result<(), ()> {
        cells.push(cell);
        Ok(())
    });
    cells
}

fn disc(center: (u16, u16), radius: i32, width: u16, height: u16) -> HashSet<(u16, u16)> {
    let mut cells = HashSet::new();
    for x in 0..width {
        for y in 0..height {
            let dx = x as i32 - center.0 as i32;
            let dy = y as i32 - center.1 as i32;
            if dx * dx + dy * dy <= radius * radius {
                cells.insert((x, y));
            }
        }
    }
    cells
}

#[test]
fn open_grid_shows_the_disc_once() {
    let mut field = Field::open(21, 21);
    let cells = visited(&mut field, (10, 10), 5);
    assert_eq!(cells[0], (10, 10));
    let set: HashSet<(u16, u16)> = cells.iter().copied().collect();
    assert_eq!(set.len(), cells.len(), "a cell was visited twice");
    assert_eq!(set, disc((10, 10), 5, 21, 21));
    assert_eq!(cells.len(), 81);
}

#[test]
fn open_grid_shows_the_disc_once_at_other_radii() {
    for radius in [0u16, 1, 2, 3, 8, 13] {
        let mut field = Field::open(41, 41);
        let cells = visited(&mut field, (20, 20), radius);
        let set: HashSet<(u16, u16)> = cells.iter().copied().collect();
        assert_eq!(set.len(), cells.len(), "a cell was visited twice at radius {}", radius);
        assert_eq!(set, disc((20, 20), radius as i32, 41, 41), "radius {}", radius);
    }
}

#[test]
fn radius_zero_shows_the_origin_alone() {
    let mut field = Field::open(5, 5);
    assert_eq!(visited(&mut field, (2, 2), 0), vec![(2, 2)]);
}

#[test]
fn wall_next_to_the_origin_casts_a_shadow() {
    let mut field = Field::open(21, 21).wall(11, 10);
    let cells = visited(&mut field, (10, 10), 5);
    let set: HashSet<(u16, u16)> = cells.iter().copied().collect();
    assert_eq!(set.len(), cells.len(), "a cell was visited twice");
    // The wall itself is seen.
    assert!(set.contains(&(11, 10)));
    // Straight behind it, nothing is.
    for x in 12..=15 {
        assert!(!set.contains(&(x, 10)), "({}, 10) lies in the shadow", x);
    }
    assert!(!set.contains(&(13, 11)));
    assert!(!set.contains(&(13, 9)));
    // Beside and away from it, the view is open.
    assert!(set.contains(&(9, 10)));
    assert!(set.contains(&(5, 10)));
    assert!(set.contains(&(10, 15)));
    assert!(set.contains(&(10, 5)));
    assert!(set.contains(&(11, 11)));
    assert!(set.contains(&(11, 9)));
    assert!(set.contains(&(12, 12)));
    // The shadow is a strict subset of the disc.
    let open = disc((10, 10), 5, 21, 21);
    assert!(set.is_subset(&open));
    assert!(set.len() < open.len());
}

#[test]
fn shadow_widens_behind_the_wall() {
    let mut field = Field::open(21, 21).wall(11, 10);
    let set: HashSet<(u16, u16)> = visited(&mut field, (10, 10), 5).into_iter().collect();
    let hidden_in = |x: u16| (5..=15).filter(|&y| !set.contains(&(x, y)) && disc((10, 10), 5, 21, 21).contains(&(x, y))).count();
    assert!(hidden_in(12) >= 1);
    assert!(hidden_in(14) >= hidden_in(12));
}

#[test]
fn closed_room_hides_what_is_outside() {
    let mut field = Field::open(9, 9);
    for i in 2..=6 {
        field = field.wall(i, 2).wall(i, 6).wall(2, i).wall(6, i);
    }
    let set: HashSet<(u16, u16)> = visited(&mut field, (4, 4), 8).into_iter().collect();
    for x in 0..9u16 {
        for y in 0..9u16 {
            let inside = (2..=6).contains(&x) && (2..=6).contains(&y);
            assert_eq!(set.contains(&(x, y)), inside, "({}, {})", x, y);
        }
    }
}

#[test]
fn origin_near_the_edge_does_not_wrap_around() {
    let mut field = Field::open(8, 8);
    let cells = visited(&mut field, (0, 0), 3);
    let set: HashSet<(u16, u16)> = cells.iter().copied().collect();
    assert_eq!(set.len(), cells.len());
    assert_eq!(set, disc((0, 0), 3, 8, 8));
    let mut field = Field::open(8, 8);
    let set: HashSet<(u16, u16)> = visited(&mut field, (7, 7), 3).into_iter().collect();
    assert_eq!(set, disc((7, 7), 3, 8, 8));
}

#[test]
fn origin_is_visited_even_outside_the_grid() {
    let mut field = Field::open(3, 3);
    let cells = visible(&field, (40, 40), 2);
    assert_eq!(cells, vec![(40, 40)]);
    let mut calls = 0;
    cast(&mut field, (40, 40), 2, |_: &mut Field, _: (u16, u16)| -> Result<(), ()> {
        calls += 1;
        Ok(())
    });
    assert_eq!(calls, 1);
}

#[test]
fn largest_coordinates_do_not_overflow() {
    struct Corner;
    struct Air;
    impl Occluder for Air {
        fn opaque(&self) -> bool {
            false
        }

        fn occludes(&self) -> bool {
            false
        }
    }
    impl GridMap for Corner {
        type Output = Air;

        fn inside(&self, x: u16, y: u16) -> bool {
            x >= 65530 && y >= 65530
        }

        fn occluded(&self, _: u16, _: u16) -> bool {
            false
        }

        fn in_bounds(&self, x: u16, y: u16) -> bool {
            x >= 65530 && y >= 65530
        }

        fn index(&self, _: (u16, u16)) -> &Air {
            &Air
        }

        fn index_mut(&mut self, _: (u16, u16)) -> &mut Air {
            Box::leak(Box::new(Air))
        }
    }

    let set: HashSet<(u16, u16)> = visible(&Corner, (65535, 65535), 3).into_iter().collect();
    let mut expected = HashSet::new();
    for x in 65530..=65535u16 {
        for y in 65530..=65535u16 {
            let dx = 65535 - x as i32;
            let dy = 65535 - y as i32;
            if dx * dx + dy * dy <= 9 {
                expected.insert((x, y));
            }
        }
    }
    assert_eq!(set, expected);
}

#[test]
fn failing_callback_does_not_stop_the_cast() {
    let mut field = Field::open(21, 21);
    let mut calls = 0;
    cast(&mut field, (10, 10), 5, |_: &mut Field, _: (u16, u16)| -> Result<(), String> {
        calls += 1;
        Err(String::from("no"))
    });
    assert_eq!(calls, 81);
}

#[test]
fn callback_may_write_to_the_grid() {
    let mut field = Field::open(7, 7);
    cast(&mut field, (3, 3), 2, |field: &mut Field, cell: (u16, u16)| -> Result<(), ()> {
        field.index_mut(cell).seen += 1;
        Ok(())
    });
    for x in 0..7u16 {
        for y in 0..7u16 {
            let dx = x as i32 - 3;
            let dy = y as i32 - 3;
            let expected = if dx * dx + dy * dy <= 4 { 1 } else { 0 };
            assert_eq!(field.index((x, y)).seen, expected, "({}, {})", x, y);
        }
    }
}

#[test]
fn visible_and_cast_agree() {
    let mut field = Field::open(15, 11).wall(8, 5).wall(6, 3).wall(7, 7);
    let listed = visible(&field, (7, 5), 6);
    assert_eq!(visited(&mut field, (7, 5), 6), listed);
}

#[test]
fn octants_are_visited_in_order() {
    let mut field = Field::open(5, 5);
    // With radius 1 every octant shows at most one cell: the cell on its
    // axis, unless it leaves that to its neighbour. Octants 0, 3, 5 and 6
    // keep it; their axes point right, up, down and left.
    assert_eq!(
        visited(&mut field, (2, 2), 1),
        vec![(2, 2), (3, 2), (2, 3), (2, 1), (1, 2)]
    );
}

#[test]
fn transform_mirrors_by_the_bits_of_the_octant() {
    assert_eq!(transform((10, 10), 3, 1, 0), Some((13, 11)));
    assert_eq!(transform((10, 10), 3, 1, 1), Some((11, 13)));
    assert_eq!(transform((10, 10), 3, 1, 2), Some((7, 11)));
    assert_eq!(transform((10, 10), 3, 1, 3), Some((9, 13)));
    assert_eq!(transform((10, 10), 3, 1, 4), Some((13, 9)));
    assert_eq!(transform((10, 10), 3, 1, 5), Some((11, 7)));
    assert_eq!(transform((10, 10), 3, 1, 6), Some((7, 9)));
    assert_eq!(transform((10, 10), 3, 1, 7), Some((9, 7)));
}

#[test]
fn transform_refuses_what_does_not_fit() {
    assert_eq!(transform((0, 0), 1, 0, 2), None);
    assert_eq!(transform((0, 5), 1, 1, 6), None);
    assert_eq!(transform((65535, 0), 1, 0, 0), None);
    assert_eq!(transform((65535, 65535), 1, 1, 6), Some((65534, 65534)));
    assert_eq!(transform((0, 0), 65535, 65535, 0), Some((65535, 65535)));
}

#[test]
fn exclusion_alternates_between_diagonal_and_axis() {
    for octant in [0u8, 3, 5, 6] {
        assert!(should_exclude(4, 4, octant));
        assert!(!should_exclude(4, 0, octant));
        assert!(!should_exclude(4, 2, octant));
    }
    for octant in [1u8, 2, 4, 7] {
        assert!(should_exclude(4, 0, octant));
        assert!(!should_exclude(4, 4, octant));
        assert!(!should_exclude(4, 2, octant));
    }
}

#[test]
fn slopes_compare_as_fractions() {
    let third = Slope { rise: 1, run: 3 };
    let half = Slope { rise: 2, run: 4 };
    assert!(third.below(&half));
    assert!(!half.below(&third));
    assert!(!half.below(&Slope { rise: 1, run: 2 }));
    assert!(Slope { rise: -1, run: 3 }.below(&Slope { rise: 0, run: 1 }));
    let far = Slope::far_of(3, 1);
    assert_eq!((far.rise, far.run), (3, 5));
    let near = Slope::near_of(3, 1);
    assert_eq!((near.rise, near.run), (1, 7));
}
