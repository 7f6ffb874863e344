use rand::rngs::SmallRng;
use rand::Rng;
use rand::SeedableRng;
use torch::generate::caves::iterate;
use torch::generate::caves::Caves;
use torch::generate::caves::Grid;
use torch::generate::random_empty_tile;
use torch::generate::random_point;
use torch::world::point::Point;
use torch::world::position::Position;
use torch::world::region::cave;
use torch::world::region::Region;
use torch::world::tile::Tile;
use torch::world::tile::TileClassId;
use torch::world::EntityKey;

const WIDTH: i32 = 80;
const HEIGHT: i32 = 40;

fn grid(rock: impl Fn(i32, i32) -> bool) -> Grid {
    let mut cells = Vec::new();
    for y in 0..HEIGHT {
        for x in 0..WIDTH {
            cells.push(rock(x, y));
        }
    }
    Grid::from_cells(cells).unwrap()
}

fn cells(grid: &Grid) -> Vec<bool> {
    let mut cells = Vec::new();
    for y in 0..HEIGHT as u16 {
        for x in 0..WIDTH as u16 {
            cells.push(grid.index((x, y)));
        }
    }
    cells
}

fn classes(region: &Region) -> Vec<TileClassId> {
    let mut classes = Vec::new();
    for y in 0..HEIGHT as u16 {
        for x in 0..WIDTH as u16 {
            classes.push(region.index(Point { x, y }).class);
        }
    }
    classes
}

fn classes_of(cells: &[bool]) -> Vec<TileClassId> {
    let mut classes: Vec<TileClassId> = cells
        .iter()
        .map(|rock| if *rock { TileClassId::CaveWall } else { TileClassId::Ground })
        .collect();
    classes[5 * 80 + 52] = TileClassId::Water;
    classes
}

fn rock_at(cells: &[bool], x: i32, y: i32) -> bool {
    if x >= 0 && x < WIDTH && y >= 0 && y < HEIGHT {
        cells[(y * WIDTH + x) as usize]
    } else {
        true
    }
}

fn count_around(cells: &[bool], x: i32, y: i32) -> u8 {
    let mut rocks = 0;
    for dx in -1..=1 {
        for dy in -1..=1 {
            if (dx, dy) != (0, 0) && rock_at(cells, x + dx, y + dy) {
                rocks += 1;
            }
        }
    }
    rocks
}

fn next(own: &[bool], around: &[bool]) -> Vec<bool> {
    let mut cells = Vec::new();
    for y in 0..HEIGHT {
        for x in 0..WIDTH {
            let rocks = count_around(around, x, y);
            cells.push(if own[(y * WIDTH + x) as usize] { rocks >= 4 } else { rocks >= 5 });
        }
    }
    cells
}

fn speckled(x: i32, y: i32) -> bool {
    (x * 7 + y * 13 + x * y) % 5 < 2
}

#[test]
fn grid_takes_exactly_a_region_of_cells() {
    assert!(Grid::from_cells(vec![false; 3200]).is_some());
    assert!(Grid::from_cells(vec![false; 3199]).is_none());
    assert!(Grid::from_cells(Vec::new()).is_none());
}

#[test]
fn beyond_the_edge_all_is_rock() {
    let open = grid(|_, _| false);
    assert!(open.is_alive(-1, 0));
    assert!(open.is_alive(0, -1));
    assert!(open.is_alive(80, 0));
    assert!(open.is_alive(0, 40));
    assert!(!open.is_alive(0, 0));
    assert!(!open.is_alive(79, 39));
}

#[test]
fn neighbours_are_the_eight_around() {
    let open = grid(|_, _| false);
    assert_eq!(open.neighbours(40, 20), 0);
    assert_eq!(open.neighbours(0, 0), 5);
    assert_eq!(open.neighbours(79, 39), 5);
    assert_eq!(open.neighbours(0, 20), 3);
    assert_eq!(open.neighbours(40, 39), 3);
    let rock = grid(|_, _| true);
    assert_eq!(rock.neighbours(40, 20), 8);
    let one = grid(|x, y| (x, y) == (10, 10));
    assert_eq!(one.neighbours(10, 10), 0);
    assert_eq!(one.neighbours(9, 9), 1);
    assert_eq!(one.neighbours(11, 10), 1);
    assert_eq!(one.neighbours(12, 10), 0);
}

#[test]
fn neighbours_match_a_count_by_hand() {
    let speckles = grid(speckled);
    let plain = cells(&speckles);
    for (x, y) in [(0, 0), (1, 1), (40, 20), (79, 0), (0, 39), (79, 39), (33, 17)] {
        assert_eq!(speckles.neighbours(x as u16, y as u16), count_around(&plain, x, y));
        assert_eq!(
            cave::neighbours(&speckles, Position { x: x as u16, y: y as u16 }),
            count_around(&plain, x, y)
        );
    }
}

#[test]
fn set_and_index_agree() {
    let mut open = grid(|_, _| false);
    open.set((3, 2), true);
    assert!(open.index((3, 2)));
    assert!(!open.index((2, 3)));
    assert!(open.is_alive(3, 2));
    assert_eq!(cells(&open).iter().filter(|rock| **rock).count(), 1);
}

#[test]
fn iterate_writes_the_next_generation() {
    let from = grid(speckled);
    let mut to = grid(|_, _| false);
    iterate(&mut to, &from);
    let plain = cells(&from);
    assert_eq!(cells(&to), next(&plain, &plain));
    // The source is left as it was.
    assert_eq!(cells(&from), plain);
}

#[test]
fn lone_rock_crumbles_and_solid_rock_stays() {
    let mut to = grid(|_, _| true);
    iterate(&mut to, &grid(|x, y| (x, y) == (10, 10)));
    assert!(!to.index((10, 10)));
    assert!(to.index((0, 0)));
    assert!(!to.index((1, 1)));
    let mut to = grid(|_, _| false);
    iterate(&mut to, &grid(|_, _| true));
    assert!(cells(&to).iter().all(|rock| *rock));
}

#[test]
fn settling_takes_seven_generations() {
    let mut expected = cells(&grid(speckled));
    for _ in 0..7 {
        expected = next(&expected, &expected);
    }
    assert_eq!(cells(&Caves::settle(grid(speckled))), expected);
}

#[test]
fn terrain_is_settled_from_a_random_seed() {
    let mut rng = SmallRng::seed_from_u64(7);
    let mut check = SmallRng::seed_from_u64(7);
    let mut expected = Vec::new();
    for _ in 0..3200 {
        expected.push(check.gen_bool(0.45));
    }
    for _ in 0..7 {
        expected = next(&expected, &expected);
    }
    let terrain = Caves.generate_terrain(&mut rng);
    assert_eq!(classes(&terrain), classes_of(&expected));
}

#[test]
fn region_of_a_grid_has_a_wall_for_every_rock_and_a_pool() {
    let speckles = grid(speckled);
    let region = speckles.make_region();
    assert_eq!(classes(&region), classes_of(&cells(&speckles)));
    assert_eq!(region.index(Point { x: 52, y: 5 }).class, TileClassId::Water);
    assert_eq!(region.index(Point { x: 0, y: 0 }).class, TileClassId::CaveWall);
    assert_eq!(region.index(Point { x: 1, y: 0 }).class, TileClassId::Ground);
    for y in 0..40 {
        for x in 0..80 {
            let tile = region.index(Point { x, y });
            assert_eq!(tile.held_entity, None);
            assert_eq!(tile.seen_token, " ");
            assert_eq!(tile.lighting.r, 0);
        }
    }
    // Solid rock keeps its pool too.
    let rock = grid(|_, _| true).make_region();
    assert_eq!(rock.index(Point { x: 52, y: 5 }).class, TileClassId::Water);
    assert_eq!(rock.index(Point { x: 51, y: 5 }).class, TileClassId::CaveWall);
}

#[test]
fn random_fill_is_nine_in_twenty() {
    let mut rng = SmallRng::seed_from_u64(1);
    let mut check = SmallRng::seed_from_u64(1);
    let filled = cells(&Grid::new(&mut rng));
    let expected: Vec<bool> = (0..3200).map(|_| check.gen_ratio(9, 20)).collect();
    assert_eq!(filled, expected);
    let rocks = filled.iter().filter(|rock| **rock).count();
    assert!(rocks > 3200 * 35 / 100 && rocks < 3200 * 55 / 100, "{} rocks", rocks);
}

#[test]
fn random_points_lie_on_the_region() {
    let mut rng = SmallRng::seed_from_u64(3);
    let mut check = SmallRng::seed_from_u64(3);
    let mut seen = std::collections::HashSet::new();
    for _ in 0..500 {
        let point = random_point(&mut rng);
        assert!(point.x < 80 && point.y < 40);
        let x: u16 = check.gen_range(0, 80);
        let y: u16 = check.gen_range(0, 40);
        assert_eq!(point, Point { x, y });
        seen.insert(point);
    }
    assert!(seen.len() > 400);
}

#[test]
fn random_empty_tile_is_one_that_is_not_blocked() {
    let region = grid(|x, _| x < 40).make_region();
    for seed in 0..20 {
        let mut rng = SmallRng::seed_from_u64(seed);
        let tile = random_empty_tile(&region, &mut rng).unwrap();
        assert!(tile.x >= 40 && tile.y < 40);
        assert!(!region.index(tile).blocks());
    }
}

#[test]
fn random_empty_tile_is_the_first_draw_that_is_empty() {
    let region = grid(|x, y| speckled(x, y)).make_region();
    let mut rng = SmallRng::seed_from_u64(5);
    let mut check = SmallRng::seed_from_u64(5);
    let tile = random_empty_tile(&region, &mut rng).unwrap();
    let mut draws = 0;
    let expected = loop {
        let point = random_point(&mut check);
        draws += 1;
        if !region.index(point).blocks() {
            break point;
        }
    };
    assert_eq!(tile, expected);
    assert!(draws <= 200);
}

#[test]
fn random_empty_tile_passes_over_a_tile_that_holds_an_entity() {
    let mut region = Region::new();
    for y in 0..40 {
        for x in 0..80 {
            if (x, y) != (17, 23) {
                region.index_mut(Point { x, y }).held_entity = Some(EntityKey { id: 1 });
            }
        }
    }
    let mut found = 0;
    for seed in 0..40 {
        let mut rng = SmallRng::seed_from_u64(seed);
        if let Some(tile) = random_empty_tile(&region, &mut rng) {
            assert_eq!(tile, Point { x: 17, y: 23 });
            found += 1;
        }
    }
    assert!(found < 40);
}

#[test]
fn random_empty_tile_gives_up_after_two_hundred_draws() {
    let mut region = Region::new();
    for y in 0..40 {
        for x in 0..80 {
            *region.index_mut(Point { x, y }) = Tile::new(TileClassId::CaveWall);
        }
    }
    let mut rng = SmallRng::seed_from_u64(5);
    let mut check = SmallRng::seed_from_u64(5);
    assert_eq!(random_empty_tile(&region, &mut rng), None);
    // Two hundred points were drawn, and no more.
    for _ in 0..200 {
        random_point(&mut check);
    }
    assert_eq!(random_point(&mut rng), random_point(&mut check));
}

#[test]
fn cave_round_judges_a_cell_by_what_it_is_in_its_own_grid() {
    let around = grid(speckled);
    let mut own = grid(|x, y| (x + y) % 3 == 0);
    let before = cells(&own);
    cave::grow(&mut own, &around);
    assert_eq!(cells(&own), next(&before, &cells(&around)));
}

#[test]
fn cave_grows_for_twelve_rounds_with_two_grids_in_turn() {
    let seed = cells(&grid(speckled));
    let mut region = seed.clone();
    let mut clone = seed;
    for _ in 0..12 {
        let grown = next(&region, &clone);
        region = clone;
        clone = grown;
    }
    assert_eq!(cells(&cave::settle(grid(speckled))), region);
}

#[test]
fn new_cave_is_grown_from_a_random_seed() {
    let mut rng = SmallRng::seed_from_u64(11);
    let mut check = SmallRng::seed_from_u64(11);
    let seed = Grid::new(&mut check);
    assert_eq!(cells(&cave::new_cave(&mut rng)), cells(&cave::settle(seed)));
}
