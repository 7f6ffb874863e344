use std::collections::HashMap;
use torch::ray_cast::cast_at;
use torch::ray_cast::transform_point_by_octant;
use torch::ray_cast::visible_at;
use torch::shadow::GridMap;
use torch::shadow::Occluder;

#[derive(Clone, Copy)]
struct Tile {
    wall: bool,
    lit: u32,
}

impl Occluder for Tile {
    fn opaque(&self) -> bool {
        self.wall
    }

    fn occludes(&self) -> bool {
        self.wall
    }
}

struct Field {
    tiles: Vec<Tile>,
    width: u16,
    height: u16,
}

impl Field {
    fn open(width: u16, height: u16) -> Field {
        let tile = Tile { wall: false, lit: 0 };
        Field { tiles: vec![tile; width as usize * height as usize], width, height }
    }

    fn wall(mut self, x: u16, y: u16) -> Field {
        self.index_mut((x, y)).wall = true;
        self
    }
}

impl GridMap for Field {
    type Output = Tile;

    fn inside(&self, x: u16, y: u16) -> bool {
        x < self.width && y < self.height
    }

    fn occluded(&self, x: u16, y: u16) -> bool {
        self.index((x, y)).wall
    }

    fn in_bounds(&self, x: u16, y: u16) -> bool {
        x < self.width && y < self.height
    }

    fn index(&self, pos: (u16, u16)) -> &Tile {
        &self.tiles[pos.1 as usize * self.width as usize + pos.0 as usize]
    }

    fn index_mut(&mut self, pos: (u16, u16)) -> &mut Tile {
        &mut self.tiles[pos.1 as usize * self.width as usize + pos.0 as usize]
    }
}

fn counts(cells: &[(u16, u16)]) -> HashMap<(u16, u16), u32> {
    let mut counts = HashMap::new();
    for cell in cells {
        *counts.entry(*cell).or_insert(0) += 1;
    }
    counts
}

#[test]
fn open_grid_shows_what_is_nearer_than_the_radius() {
    let field = Field::open(21, 21);
    let cells = visible_at(&field, 10, 10, 5);
    assert_eq!(cells[0], (10, 10));
    let seen = counts(&cells);
    for x in 0..21i32 {
        for y in 0..21i32 {
            let (dx, dy) = (x - 10, y - 10);
            let near = dx * dx + dy * dy < 25;
            // A cell on an axis or a diagonal lies on the border of two
            // octants and is seen by both.
            let shared = dx == 0 || dy == 0 || dx.abs() == dy.abs();
            let expected = if (dx, dy) == (0, 0) {
                1
            } else if !near {
                0
            } else if shared {
                2
            } else {
                1
            };
            let times = seen.get(&(x as u16, y as u16)).copied().unwrap_or(0);
            assert_eq!(times, expected, "({}, {})", x, y);
        }
    }
}

#[test]
fn radius_one_reaches_nothing_but_the_origin() {
    let field = Field::open(5, 5);
    assert_eq!(visible_at(&field, 2, 2, 0), vec![(2, 2)]);
    assert_eq!(visible_at(&field, 2, 2, 1), vec![(2, 2)]);
}

#[test]
fn wall_casts_a_shadow() {
    let field = Field::open(21, 21).wall(10, 9);
    let seen = counts(&visible_at(&field, 10, 10, 6));
    assert!(seen.contains_key(&(10, 9)));
    for y in 5..=8 {
        assert!(!seen.contains_key(&(10, y)), "(10, {}) lies in the shadow", y);
    }
    assert!(seen.contains_key(&(10, 11)));
    assert!(seen.contains_key(&(9, 9)));
    assert!(seen.contains_key(&(11, 9)));
    assert!(seen.contains_key(&(14, 10)));
}

#[test]
fn strict_cast_near_the_edge_does_not_wrap_around() {
    let field = Field::open(8, 8);
    let seen = counts(&visible_at(&field, 0, 0, 4));
    for (x, y) in seen.keys() {
        assert!(*x < 4 && *y < 4 && x * x + y * y < 16, "({}, {})", x, y);
    }
    assert!(seen.contains_key(&(3, 0)));
    assert!(seen.contains_key(&(0, 3)));
    assert!(seen.contains_key(&(2, 2)));
}

#[test]
fn callback_gets_every_cell_with_its_place() {
    let mut field = Field::open(9, 9).wall(5, 4);
    let listed = visible_at(&field, 4, 4, 4);
    let mut visited = Vec::new();
    cast_at(&mut field, 4, 4, 4, |tile: &mut Tile, x: u16, y: u16| {
        tile.lit += 1;
        visited.push((x, y));
    });
    assert_eq!(visited, listed);
    for (cell, times) in counts(&listed) {
        assert_eq!(field.index(cell).lit, times, "{:?}", cell);
    }
    assert_eq!(field.index((8, 4)).lit, 0);
}

#[test]
fn octants_lie_toward_the_low_corner_first() {
    assert_eq!(transform_point_by_octant((10, 10), 3, 1, 0), Some((9, 7)));
    assert_eq!(transform_point_by_octant((10, 10), 3, 1, 1), Some((7, 9)));
    assert_eq!(transform_point_by_octant((10, 10), 3, 1, 2), Some((11, 7)));
    assert_eq!(transform_point_by_octant((10, 10), 3, 1, 3), Some((13, 9)));
    assert_eq!(transform_point_by_octant((10, 10), 3, 1, 4), Some((9, 13)));
    assert_eq!(transform_point_by_octant((10, 10), 3, 1, 5), Some((7, 11)));
    assert_eq!(transform_point_by_octant((10, 10), 3, 1, 6), Some((11, 13)));
    assert_eq!(transform_point_by_octant((10, 10), 3, 1, 7), Some((13, 11)));
    assert_eq!(transform_point_by_octant((0, 0), 1, 0, 0), None);
    assert_eq!(transform_point_by_octant((65535, 65535), 1, 1, 6), None);
}
