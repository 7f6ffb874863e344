use rand::rngs::SmallRng;
use rand::SeedableRng;
use torch::ai::snake_prey;
use torch::camera::camera;
use torch::camera::draw_seen;
use torch::camera::draw_tile;
use torch::camera::draw_visible;
use torch::camera::xy_to_linecol;
use torch::color::Color;
use torch::commands::direction_of;
use torch::frontend::buffer::Buffer;
use torch::frontend::buffer::Cell;
use torch::frontend::Attributes;
use torch::frontend::Screen;
use torch::frontend::Size;
use torch::generate::random_empty_tile;
use torch::shadow::cast;
use torch::shadow::visible;
use torch::shadow::GridMap;
use torch::shadow::Occluder;
use torch::world::entity::EntityClassId;
use torch::world::light;
use torch::world::light::LightComponent;
use torch::world::light::LightComponentClassId;
use torch::world::point::Offset;
use torch::world::point::Point;
use torch::world::region::Region;
use torch::world::tile::Tile;
use torch::world::tile::TileClassId;
use torch::world::EntityKey;
use torch::world::Error;

fn p(x: u16, y: u16) -> Point {
    Point { x, y }
}

fn wall() -> Tile {
    Tile::new(TileClassId::CaveWall)
}

#[test]
fn tile_classes_have_their_looks() {
    let ground = TileClassId::Ground.flyweight();
    assert_eq!((ground.token, ground.color, ground.blocks), (".", Color::new(0x222222), false));
    let rock = TileClassId::CaveWall.flyweight();
    assert_eq!((rock.token, rock.color, rock.blocks), ("#", Color::new(0x222222), true));
    let water = TileClassId::Water.flyweight();
    assert_eq!((water.token, water.blocks), ("~", false));
}

#[test]
fn new_tile_is_dark_and_unseen() {
    let tile = Tile::new(TileClassId::CaveWall);
    assert_eq!(tile.class, TileClassId::CaveWall);
    assert_eq!(tile.held_entity, None);
    assert!(!tile.held_entity_occludes);
    assert_eq!(tile.lighting, Color::black());
    assert_eq!(tile.seen_token, " ");
    assert_eq!(tile.seen_color, Color::black());
    assert_eq!(Tile::default().class, TileClassId::Ground);
}

#[test]
fn tile_shows_its_class() {
    assert_eq!(wall().token(), "#");
    assert_eq!(wall().color(), Color::new(0x222222));
    assert_eq!(Tile::default().token(), ".");
}

#[test]
fn tile_blocks_by_its_class_or_by_what_stands_on_it() {
    assert!(wall().blocks());
    assert!(!Tile::default().blocks());
    assert!(!Tile::new(TileClassId::Water).blocks());
    let mut held = Tile::default();
    held.held_entity = Some(EntityKey { id: 3 });
    assert!(held.blocks());
}

#[test]
fn tile_occludes_by_its_class_or_by_an_entity_that_does() {
    assert!(wall().occludes());
    assert!(!Tile::default().occludes());
    let mut held = Tile::default();
    held.held_entity = Some(EntityKey { id: 3 });
    assert!(!held.occludes());
    held.held_entity_occludes = true;
    assert!(held.occludes());
}

#[test]
fn entity_classes_have_their_looks() {
    let player = EntityClassId::Player.flyweight();
    assert_eq!(
        (player.token, player.color, player.speed, player.occludes),
        ("@", Color::new(0xffffff), 12, true)
    );
    let torch = EntityClassId::Torch.flyweight();
    assert_eq!(
        (torch.token, torch.color, torch.speed, torch.occludes),
        ("i", Color::new(0xe25822), 0, false)
    );
    let snake = EntityClassId::Snake.flyweight();
    assert_eq!(
        (snake.token, snake.color, snake.speed, snake.occludes),
        ("s", Color::new(0x47ff2a), 8, false)
    );
}

#[test]
fn entity_classes_have_their_names() {
    assert_eq!(EntityClassId::Player.to_string(), "Player");
    assert_eq!(EntityClassId::Torch.to_string(), "Torch");
    assert_eq!(EntityClassId::Snake.to_string(), "Snake");
}

#[test]
fn new_region_is_open_ground() {
    let region = Region::new();
    for (x, y) in [(0, 0), (79, 0), (0, 39), (79, 39), (40, 20)] {
        let tile = region.index(p(x, y));
        assert_eq!(tile.class, TileClassId::Ground);
        assert_eq!(tile.held_entity, None);
    }
    assert!(Region::in_bounds(p(79, 39)));
    assert!(!Region::in_bounds(p(80, 39)));
    assert!(!Region::in_bounds(p(79, 40)));
}

#[test]
fn region_write_is_read_back_and_touches_no_other_tile() {
    let mut region = Region::new();
    *region.index_mut(p(3, 2)) = wall();
    region.index_mut(p(79, 39)).held_entity = Some(EntityKey { id: 9 });
    assert_eq!(region.index(p(3, 2)).class, TileClassId::CaveWall);
    assert_eq!(region.index(p(79, 39)).held_entity, Some(EntityKey { id: 9 }));
    let mut walls = 0;
    for y in 0..40 {
        for x in 0..80 {
            if region.index(p(x, y)).class == TileClassId::CaveWall {
                walls += 1;
                assert_eq!((x, y), (3, 2));
            }
        }
    }
    assert_eq!(walls, 1);
    // The tile at (2, 3) is another one.
    assert_eq!(region.index(p(2, 3)).class, TileClassId::Ground);
    let copy = region.clone();
    assert_eq!(copy.index(p(3, 2)).class, TileClassId::CaveWall);
}

#[test]
fn clearing_the_light_keeps_everything_else() {
    let mut region = Region::new();
    {
        let tile = region.index_mut(p(5, 6));
        tile.lighting = Color::new(0x102030);
        tile.seen_token = "#";
        tile.seen_color = Color::new(0x040506);
        tile.class = TileClassId::CaveWall;
    }
    region.index_mut(p(0, 0)).lighting = Color::new(0xffffff);
    region.clear_light_info();
    let tile = region.index(p(5, 6));
    assert_eq!(tile.lighting, Color::black());
    assert_eq!(tile.seen_token, "#");
    assert_eq!(tile.seen_color, Color::new(0x040506));
    assert_eq!(tile.class, TileClassId::CaveWall);
    assert_eq!(region.index(p(0, 0)).lighting, Color::black());
}

#[test]
fn region_is_a_grid_of_occluders() {
    let mut region = Region::new();
    *region.index_mut(p(41, 20)) = wall();
    assert!(GridMap::in_bounds(&region, 79, 39));
    assert!(!GridMap::in_bounds(&region, 80, 0));
    assert!(!GridMap::in_bounds(&region, 0, 40));
    assert!(GridMap::index(&region, (41, 20)).occludes());
    assert!(!GridMap::index(&region, (20, 41 - 20)).occludes());
    GridMap::index_mut(&mut region, (7, 8)).held_entity_occludes = true;
    assert!(region.index(p(7, 8)).occludes());
}

#[test]
fn wall_in_a_region_casts_a_shadow() {
    let mut region = Region::new();
    *region.index_mut(p(41, 20)) = wall();
    let seen = visible(&region, (40, 20), 5);
    assert!(seen.contains(&(40, 20)));
    assert!(seen.contains(&(41, 20)));
    assert!(!seen.contains(&(42, 20)));
    assert!(!seen.contains(&(45, 20)));
    assert!(seen.contains(&(39, 20)));
    assert!(seen.contains(&(35, 20)));
}

#[test]
fn cast_on_a_region_can_write_what_it_sees() {
    let mut region = Region::new();
    *region.index_mut(p(41, 20)) = wall();
    let expected = visible(&region, (40, 20), 3);
    let mut calls = Vec::new();
    cast(&mut region, (40, 20), 3, |region: &mut Region, cell| -> Result<(), ()> {
        let tile = GridMap::index_mut(region, cell);
        tile.seen_token = tile.token();
        tile.seen_color = tile.color();
        calls.push(cell);
        Ok(())
    });
    assert_eq!(calls, expected);
    assert_eq!(region.index(p(41, 20)).seen_token, "#");
    assert_eq!(region.index(p(40, 20)).seen_token, ".");
    assert_eq!(region.index(p(42, 20)).seen_token, " ");
    assert_eq!(region.index(p(44, 20)).seen_token, " ");
}

#[test]
fn light_in_a_region_stops_at_walls() {
    let mut region = Region::new();
    for y in 0..40 {
        *region.index_mut(p(12, y)) = wall();
    }
    let mut torch = LightComponent::new(LightComponentClassId::Torch);
    light::cast(&mut torch, &region, p(10, 10));
    let lit = torch.lit_points();
    assert_eq!(lit[0], p(10, 10));
    assert!(lit.contains(&p(12, 10)));
    assert!(lit.contains(&p(2, 10)));
    assert!(lit.iter().all(|point| point.x <= 12));
    assert!(!lit.contains(&p(1, 10)));
}

fn remembered() -> Region {
    let mut region = Region::new();
    {
        let tile = region.index_mut(p(40, 20));
        tile.seen_token = "@";
        tile.seen_color = Color::new(0xffffff);
    }
    {
        let tile = region.index_mut(p(41, 21));
        tile.seen_token = "#";
        tile.seen_color = Color::new(0x222222);
    }
    {
        // Seen, but only in black: not drawn.
        let tile = region.index_mut(p(39, 20));
        tile.seen_token = "s";
        tile.seen_color = Color::black();
    }
    {
        // Far from the player: has no place on a small screen.
        let tile = region.index_mut(p(2, 2));
        tile.seen_token = "i";
        tile.seen_color = Color::new(0xe25822);
    }
    region
}

#[test]
fn seen_tiles_are_drawn_in_gray() {
    let region = remembered();
    let size = Size { height: 10, width: 20 };
    let mut buffer = Buffer::new(size);
    {
        let mut screen = Screen::new(&mut buffer);
        draw_seen(&mut screen, &region, p(40, 20));
    }
    let (line, col) = xy_to_linecol(40, 20, size, p(40, 20)).unwrap();
    assert_eq!(
        *buffer.index((line, col).into()),
        Cell {
            c: '@',
            fg_color: Color::new(0xffffff).to_gray(),
            bg_color: Color::black(),
            attributes: Attributes::normal()
        }
    );
    let (line, col) = xy_to_linecol(41, 21, size, p(40, 20)).unwrap();
    assert_eq!(
        *buffer.index((line, col).into()),
        Cell {
            c: '#',
            fg_color: Color::new(0x222222).to_gray(),
            bg_color: Color::black(),
            attributes: Attributes::normal()
        }
    );
    let (line, col) = xy_to_linecol(39, 20, size, p(40, 20)).unwrap();
    assert_eq!(*buffer.index((line, col).into()), Cell::default());
    let mut drawn = 0;
    for line in 0..10 {
        for col in 0..20 {
            if *buffer.index((line, col).into()) != Cell::default() {
                drawn += 1;
            }
        }
    }
    assert_eq!(drawn, 2);
}

#[test]
fn nothing_seen_leaves_the_screen_as_it_is() {
    let region = Region::new();
    let mut buffer = Buffer::new(Size { height: 4, width: 6 });
    {
        let mut screen = Screen::new(&mut buffer);
        screen.draw("ab", (1, 1).into(), Color::new(0x010203), Color::black(), Attributes::bold());
        draw_seen(&mut screen, &region, p(0, 0));
    }
    assert_eq!(buffer.index((1, 1).into()).c, 'a');
    assert_eq!(buffer.index((1, 2).into()).c, 'b');
    assert_eq!(*buffer.index((0, 0).into()), Cell::default());
}

const SNAKE: EntityKey = EntityKey { id: 7 };

#[test]
fn entity_is_put_on_a_free_tile_only() {
    let mut region = Region::new();
    *region.index_mut(p(5, 5)) = wall();
    assert!(region.is_free(p(4, 5)));
    assert!(!region.is_free(p(5, 5)));
    assert!(!region.is_free(p(80, 5)));
    assert!(!region.is_free(p(4, 40)));

    assert_eq!(region.add_entity(p(4, 5), SNAKE, true), Ok(()));
    let tile = region.index(p(4, 5));
    assert_eq!(tile.held_entity, Some(SNAKE));
    assert!(tile.held_entity_occludes);
    assert_eq!(tile.class, TileClassId::Ground);
    assert!(!region.is_free(p(4, 5)));

    assert_eq!(region.add_entity(p(4, 5), EntityKey { id: 8 }, false), Err(Error::TileBlocks));
    assert_eq!(region.index(p(4, 5)).held_entity, Some(SNAKE));
    assert!(region.index(p(4, 5)).held_entity_occludes);
    assert_eq!(region.add_entity(p(5, 5), SNAKE, false), Err(Error::TileBlocks));
    assert_eq!(region.index(p(5, 5)).held_entity, None);
    assert_eq!(region.add_entity(p(80, 0), SNAKE, false), Err(Error::TileBlocks));
    assert_eq!(region.add_entity(p(0, 40), SNAKE, false), Err(Error::TileBlocks));
}

#[test]
fn entity_moves_to_a_free_tile_and_leaves_its_own() {
    let mut region = Region::new();
    region.add_entity(p(10, 10), SNAKE, true).unwrap();
    assert_eq!(region.move_entity(p(10, 10), SNAKE, Offset { x: -1, y: 1 }, true), Ok(p(9, 11)));
    let left = region.index(p(10, 10));
    assert_eq!(left.held_entity, None);
    assert!(!left.held_entity_occludes);
    let reached = region.index(p(9, 11));
    assert_eq!(reached.held_entity, Some(SNAKE));
    assert!(reached.held_entity_occludes);
    let mut holding = 0;
    for y in 0..40 {
        for x in 0..80 {
            if region.index(p(x, y)).held_entity.is_some() {
                holding += 1;
            }
        }
    }
    assert_eq!(holding, 1);
}

#[test]
fn entity_does_not_move_onto_a_tile_that_is_taken() {
    let mut region = Region::new();
    *region.index_mut(p(11, 10)) = wall();
    region.add_entity(p(10, 10), SNAKE, false).unwrap();
    region.add_entity(p(10, 11), EntityKey { id: 8 }, false).unwrap();
    let wall_ahead = region.move_entity(p(10, 10), SNAKE, Offset { x: 1, y: 0 }, false);
    assert_eq!(wall_ahead, Err(Error::TileBlocks));
    let entity_ahead = region.move_entity(p(10, 10), SNAKE, Offset { x: 0, y: 1 }, false);
    assert_eq!(entity_ahead, Err(Error::TileBlocks));
    // A step of no length leads to the entity's own tile, which is taken.
    let no_step = region.move_entity(p(10, 10), SNAKE, Offset { x: 0, y: 0 }, false);
    assert_eq!(no_step, Err(Error::TileBlocks));
    assert_eq!(region.index(p(10, 10)).held_entity, Some(SNAKE));
    assert_eq!(region.index(p(10, 11)).held_entity, Some(EntityKey { id: 8 }));
    assert_eq!(region.index(p(11, 10)).held_entity, None);
}

#[test]
fn entity_does_not_move_off_the_region() {
    let mut region = Region::new();
    region.add_entity(p(79, 39), SNAKE, false).unwrap();
    assert_eq!(
        region.move_entity(p(79, 39), SNAKE, Offset { x: 1, y: 0 }, false),
        Err(Error::TileBlocks)
    );
    assert_eq!(
        region.move_entity(p(79, 39), SNAKE, Offset { x: 0, y: 1 }, false),
        Err(Error::TileBlocks)
    );
    assert_eq!(region.index(p(79, 39)).held_entity, Some(SNAKE));
    let mut region = Region::new();
    region.add_entity(p(0, 0), SNAKE, false).unwrap();
    // A step below zero stops at zero, on the entity's own tile.
    assert_eq!(
        region.move_entity(p(0, 0), SNAKE, Offset { x: -1, y: 0 }, false),
        Err(Error::TileBlocks)
    );
    assert_eq!(region.move_entity(p(0, 0), SNAKE, Offset { x: -1, y: 1 }, false), Ok(p(0, 1)));
}

#[test]
fn entity_that_leaves_is_taken_off_its_tile() {
    let mut region = Region::new();
    region.add_entity(p(3, 0), SNAKE, true).unwrap();
    region.remove_entity(p(3, 0));
    let tile = region.index(p(3, 0));
    assert_eq!(tile.held_entity, None);
    assert!(tile.held_entity_occludes);
    assert!(region.is_free(p(3, 0)));
}

#[test]
fn entity_that_comes_in_is_put_on_an_empty_tile() {
    let mut region = Region::new();
    for y in 0..40 {
        for x in 0..80 {
            if x % 3 != 0 {
                *region.index_mut(p(x, y)) = wall();
            }
        }
    }
    region.add_entity(p(3, 39), EntityKey { id: 8 }, false).unwrap();
    let mut cleared = region.clone();
    cleared.remove_entity(p(3, 39));
    let mut rng = SmallRng::seed_from_u64(21);
    let mut check = SmallRng::seed_from_u64(21);
    let expected = random_empty_tile(&cleared, &mut check).unwrap();
    let place = region.receive_entity(p(3, 39), SNAKE, &mut rng);
    assert_eq!(place, Some(expected));
    assert_eq!(region.index(expected).held_entity, Some(SNAKE));
    assert!(!region.index(expected).held_entity_occludes);
    if expected != p(3, 39) {
        assert_eq!(region.index(p(3, 39)).held_entity, None);
    }
    let mut holding = 0;
    for y in 0..40 {
        for x in 0..80 {
            if region.index(p(x, y)).held_entity.is_some() {
                holding += 1;
            }
        }
    }
    assert_eq!(holding, 1);
}

#[test]
fn entity_that_finds_no_empty_tile_is_on_none() {
    let mut region = Region::new();
    for y in 0..40 {
        for x in 0..80 {
            *region.index_mut(p(x, y)) = wall();
        }
    }
    let mut rng = SmallRng::seed_from_u64(2);
    assert_eq!(region.receive_entity(p(0, 7), SNAKE, &mut rng), None);
    for y in 0..40 {
        for x in 0..80 {
            assert_eq!(region.index(p(x, y)).held_entity, None);
        }
    }
}

#[test]
fn keys_stand_for_steps() {
    let steps = [
        ('h', (-1, 0)),
        ('j', (0, -1)),
        ('k', (0, 1)),
        ('l', (1, 0)),
        ('y', (-1, 1)),
        ('u', (1, 1)),
        ('b', (-1, -1)),
        ('n', (1, -1)),
    ];
    for (key, (x, y)) in steps {
        assert_eq!(direction_of(key), Some(Offset { x, y }));
    }
    for key in ['H', 'q', ' ', '1', 'i', '\n'] {
        assert_eq!(direction_of(key), None);
    }
}

#[test]
fn tile_that_is_seen_is_drawn_and_remembered() {
    let size = Size { height: 10, width: 20 };
    let mut buffer = Buffer::new(size);
    let mut tile = wall();
    tile.lighting = Color::new(0x010101);
    {
        let mut screen = Screen::new(&mut buffer);
        draw_tile(&mut screen, &mut tile, 41, 21, "#", Color::new(0x445566), p(40, 20));
    }
    assert_eq!(tile.seen_token, "#");
    assert_eq!(tile.seen_color, Color::new(0x445566));
    assert_eq!(tile.class, TileClassId::CaveWall);
    assert_eq!(tile.lighting, Color::new(0x010101));
    let (line, col) = xy_to_linecol(41, 21, size, p(40, 20)).unwrap();
    assert_eq!(
        *buffer.index((line, col).into()),
        Cell {
            c: '#',
            fg_color: Color::new(0x445566),
            bg_color: Color::black(),
            attributes: Attributes::normal()
        }
    );
}

#[test]
fn tile_seen_in_black_is_remembered_and_not_drawn() {
    let size = Size { height: 10, width: 20 };
    let mut buffer = Buffer::new(size);
    let mut tile = Tile::default();
    tile.seen_token = "@";
    tile.seen_color = Color::new(0xffffff);
    {
        let mut screen = Screen::new(&mut buffer);
        draw_tile(&mut screen, &mut tile, 40, 20, ".", Color::black(), p(40, 20));
        // A tile off the screen is remembered too.
        draw_tile(&mut screen, &mut tile, 0, 0, "~", Color::new(0x2244aa), p(70, 30));
    }
    assert_eq!(tile.seen_token, "~");
    assert_eq!(tile.seen_color, Color::new(0x2244aa));
    for line in 0..10 {
        for col in 0..20 {
            assert_eq!(*buffer.index((line, col).into()), Cell::default());
        }
    }
}

fn plain_look(tile: &Tile, _: (u16, u16)) -> (&'static str, Color) {
    (tile.token(), Color::new(0x808080))
}

#[test]
fn what_is_visible_is_drawn_and_remembered() {
    let mut region = Region::new();
    *region.index_mut(p(41, 20)) = wall();
    let in_view = visible(&region, (40, 20), 40);
    let size = Size { height: 40, width: 80 };
    let mut buffer = Buffer::new(size);
    let mut looked = Vec::new();
    {
        let mut screen = Screen::new(&mut buffer);
        draw_visible(&mut screen, &mut region, p(40, 20), |tile: &Tile, cell: (u16, u16)| {
            looked.push(cell);
            plain_look(tile, cell)
        });
    }
    assert_eq!(looked, in_view);
    assert!(in_view.contains(&(41, 20)) && !in_view.contains(&(42, 20)));
    for y in 0..40 {
        for x in 0..80 {
            let tile = region.index(p(x, y));
            let (line, col) = xy_to_linecol(x, y, size, p(40, 20)).unwrap();
            let cell = *buffer.index((line, col).into());
            if in_view.contains(&(x, y)) {
                assert_eq!(tile.seen_token, tile.token());
                assert_eq!(tile.seen_color, Color::new(0x808080));
                assert_eq!(cell.c, tile.token().chars().next().unwrap());
                assert_eq!(cell.fg_color, Color::new(0x808080));
            } else {
                assert_eq!(tile.seen_token, " ");
                assert_eq!(tile.seen_color, Color::black());
                assert_eq!(cell, Cell::default());
            }
        }
    }
    assert_eq!(buffer.index(xy_to_linecol(41, 20, size, p(40, 20)).unwrap().into()).c, '#');
}

#[test]
fn look_is_taken_of_the_tile_as_it_is_when_its_turn_comes() {
    let mut region = Region::new();
    region.index_mut(p(5, 5)).lighting = Color::new(0x030303);
    let mut buffer = Buffer::new(Size { height: 40, width: 80 });
    let mut turns = 0;
    {
        let mut screen = Screen::new(&mut buffer);
        draw_visible(&mut screen, &mut region, p(5, 5), |tile: &Tile, _: (u16, u16)| {
            turns += 1;
            // Nothing was seen of any tile before its turn.
            assert_eq!(tile.seen_token, " ");
            ("*", tile.lighting)
        });
    }
    assert!(turns > 1);
    assert_eq!(region.index(p(5, 5)).seen_token, "*");
    assert_eq!(region.index(p(5, 5)).seen_color, Color::new(0x030303));
    // A tile that shows in black is remembered, and not drawn.
    assert_eq!(region.index(p(6, 5)).seen_token, "*");
    assert_eq!(region.index(p(6, 5)).seen_color, Color::black());
    let mut drawn = 0;
    for line in 0..40 {
        for col in 0..80 {
            if *buffer.index((line, col).into()) != Cell::default() {
                drawn += 1;
            }
        }
    }
    assert_eq!(drawn, 1);
}

#[test]
fn camera_draws_what_is_seen_over_what_is_remembered() {
    let mut region = remembered();
    for y in 0..40 {
        *region.index_mut(p(45, y)) = wall();
    }
    {
        // Behind the wall, out of sight.
        let tile = region.index_mut(p(50, 20));
        tile.seen_token = "s";
        tile.seen_color = Color::new(0x47ff2a);
    }
    let size = Size { height: 40, width: 80 };
    let mut buffer = Buffer::new(size);
    {
        let mut screen = Screen::new(&mut buffer);
        camera(&mut screen, &mut region, p(40, 20), plain_look);
    }
    let at = |x: u16, y: u16| *buffer.index(xy_to_linecol(x, y, size, p(40, 20)).unwrap().into());
    // In sight: what is seen now, in its own color.
    assert_eq!(at(40, 20).c, '.');
    assert_eq!(at(40, 20).fg_color, Color::new(0x808080));
    assert_eq!(at(45, 20).c, '#');
    // Out of sight: what was seen before, in gray.
    assert_eq!(at(50, 20).c, 's');
    assert_eq!(at(50, 20).fg_color, Color::new(0x47ff2a).to_gray());
    assert_eq!(region.index(p(50, 20)).seen_token, "s");
    // Never seen: nothing.
    assert_eq!(at(60, 20), Cell::default());
}

#[test]
fn snake_attacks_the_first_entity_it_finds_beside_it() {
    let mut region = Region::new();
    region.add_entity(p(10, 10), SNAKE, false).unwrap();
    assert_eq!(snake_prey(p(10, 10), &region), None);
    // Straight above and below, a snake does not look for prey.
    region.add_entity(p(10, 11), EntityKey { id: 1 }, false).unwrap();
    region.add_entity(p(10, 9), EntityKey { id: 2 }, false).unwrap();
    assert_eq!(snake_prey(p(10, 10), &region), None);
    region.add_entity(p(11, 9), EntityKey { id: 3 }, false).unwrap();
    assert_eq!(snake_prey(p(10, 10), &region), Some(EntityKey { id: 3 }));
    region.add_entity(p(11, 11), EntityKey { id: 4 }, false).unwrap();
    assert_eq!(snake_prey(p(10, 10), &region), Some(EntityKey { id: 3 }));
    // The column to the west is looked at first, from the south.
    region.add_entity(p(9, 11), EntityKey { id: 5 }, false).unwrap();
    assert_eq!(snake_prey(p(10, 10), &region), Some(EntityKey { id: 5 }));
    region.add_entity(p(9, 9), EntityKey { id: 6 }, false).unwrap();
    assert_eq!(snake_prey(p(10, 10), &region), Some(EntityKey { id: 6 }));
    // Two tiles away is out of reach.
    assert_eq!(snake_prey(p(13, 10), &region), None);
}

#[test]
fn snake_in_the_corner_does_not_look_off_the_region() {
    let mut region = Region::new();
    region.add_entity(p(0, 0), SNAKE, false).unwrap();
    assert_eq!(snake_prey(p(0, 0), &region), None);
    region.add_entity(p(1, 1), EntityKey { id: 1 }, false).unwrap();
    assert_eq!(snake_prey(p(0, 0), &region), Some(EntityKey { id: 1 }));
    assert_eq!(snake_prey(p(0, 2), &region), Some(EntityKey { id: 1 }));
    assert_eq!(snake_prey(p(78, 38), &region), None);
}
