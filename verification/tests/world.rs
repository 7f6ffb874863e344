use torch::ai::null_ai;
use torch::ai::Action;
use torch::camera::clamp;
use torch::camera::min_cast_radius;
use torch::camera::point;
use torch::camera::xy_to_linecol;
use torch::color::Color;
use torch::commands::entry_point;
use torch::commands::is_player_leaving_region;
use torch::frontend::Size;
use torch::shadow::GridMap;
use torch::shadow::Occluder;
use torch::world::entity::EntityClassId;
use torch::world::inventory::InventoryComponent;
use torch::world::inventory::Item;
use torch::world::inventory::ItemClassId;
use torch::world::light::cast;
use torch::world::light::LightComponent;
use torch::world::light::LightComponentClassId;
use torch::world::point::Offset;
use torch::world::point::Point;
use torch::world::position::Position;
use torch::world::region;
use torch::world::Direction;
use torch::world::EntityKey;
use torch::world::ItemKey;

fn p(x: u16, y: u16) -> Point {
    Point { x, y }
}

fn o(x: i32, y: i32) -> Offset {
    Offset { x, y }
}

#[test]
fn point_converts_to_and_from_pairs() {
    assert_eq!(Point::from((3, 4)), p(3, 4));
    assert_eq!(p(3, 4).into_tuple(), (3, 4));
    assert_eq!(Offset::from((-1, 1)), o(-1, 1));
}

#[test]
fn point_plus_offset_moves() {
    assert_eq!(p(5, 5) + o(1, -1), p(6, 4));
    assert_eq!(p(5, 5) + o(0, 0), p(5, 5));
    assert_eq!(p(5, 5) + o(-5, -5), p(0, 0));
}

#[test]
fn point_plus_offset_stops_at_zero() {
    assert_eq!(p(0, 3) + o(-1, 0), p(0, 3));
    assert_eq!(p(2, 0) + o(-7, -1), p(0, 0));
    assert_eq!(p(2, 0) + o(i32::MIN, i32::MIN), p(0, 0));
}

#[test]
fn point_plus_offset_wraps_at_the_top() {
    assert_eq!(p(65535, 0) + o(1, 0), p(0, 0));
    assert_eq!(p(65535, 10) + o(3, 65536), p(2, 10));
}

#[test]
fn points_order_by_x_then_y() {
    assert!(p(1, 9) < p(2, 0));
    assert!(p(1, 1) < p(1, 2));
    assert!(o(-1, 5) < o(0, 0));
}

#[test]
fn position_try_add_stays_on_the_grid() {
    let position = Position { x: 3, y: 4 };
    let moved = position.try_add(torch::world::position::Offset { x: -3, y: 5 });
    assert_eq!(moved.ok(), Some(Position { x: 0, y: 9 }));
    let edge = Position { x: 65535, y: 0 };
    assert_eq!(
        edge.try_add(torch::world::position::Offset { x: 0, y: 65535 }).ok(),
        Some(Position { x: 65535, y: 65535 })
    );
}

#[test]
fn position_try_add_refuses_to_leave_the_grid() {
    let position = Position { x: 3, y: 4 };
    assert!(position.try_add(torch::world::position::Offset { x: -4, y: 0 }).is_err());
    assert!(position.try_add(torch::world::position::Offset { x: 0, y: -5 }).is_err());
    assert!(position.try_add(torch::world::position::Offset { x: 65533, y: 0 }).is_err());
    assert!(position.try_add(torch::world::position::Offset { x: i32::MAX, y: i32::MAX }).is_err());
    assert!(position.try_add(torch::world::position::Offset { x: i32::MIN, y: 0 }).is_err());
}

#[test]
fn position_adds_and_converts() {
    let mut position = Position::from((1, 2)) + Position::from((10, 20));
    assert_eq!(position, Position { x: 11, y: 22 });
    position += Position { x: 1, y: 1 };
    assert_eq!(position, Position { x: 12, y: 23 });
    let pair: (u16, u16) = position.into();
    assert_eq!(pair, (12, 23));
    let offset = torch::world::position::Offset::from((-2, 3));
    assert_eq!((offset.x, offset.y), (-2, 3));
}

#[test]
fn direction_negates_to_its_opposite() {
    assert_eq!(-Direction::North, Direction::South);
    assert_eq!(-Direction::South, Direction::North);
    assert_eq!(-Direction::East, Direction::West);
    assert_eq!(-Direction::West, Direction::East);
    for direction in [Direction::North, Direction::South, Direction::East, Direction::West] {
        assert_eq!(-(-direction), direction);
    }
}

#[test]
fn region_is_eighty_by_forty() {
    assert_eq!((region::WIDTH, region::HEIGHT), (80, 40));
    assert!(region::in_bounds(p(0, 0)));
    assert!(region::in_bounds(p(79, 39)));
    assert!(!region::in_bounds(p(80, 0)));
    assert!(!region::in_bounds(p(0, 40)));
    assert_eq!(region::tile_index(p(0, 0)), 0);
    assert_eq!(region::tile_index(p(3, 2)), 163);
    assert_eq!(region::tile_index(p(79, 39)), 3199);
}

#[test]
fn item_shows_its_class() {
    let item = Item::new(ItemClassId::Sword);
    assert!(!item.corroded);
    assert_eq!(item.class, ItemClassId::Sword);
    assert_eq!(item.token(), "/");
    assert_eq!(item.color(), Color::new(0xffd700));
    assert_eq!(item.to_string(), "Sword");
    assert_eq!(ItemClassId::Sword.to_string(), "Sword");
    assert_eq!(ItemClassId::Sword.flyweight().token, "/");
}

#[test]
fn corroded_item_says_so() {
    let mut item = Item::new(ItemClassId::Sword);
    item.corroded = true;
    assert_eq!(item.to_string(), "corroded Sword");
}

#[test]
fn inventory_keeps_the_order_of_pick_up() {
    let mut component = InventoryComponent::default();
    assert!(component.inventory().is_empty());
    component.inventory_mut().push(ItemKey { id: 7 });
    component.inventory_mut().push(ItemKey { id: 3 });
    assert_eq!(component.inventory(), &vec![ItemKey { id: 7 }, ItemKey { id: 3 }]);
    let copy = component.clone();
    component.inventory_mut().clear();
    assert_eq!(copy.inventory().len(), 2);
    assert!(component.inventory().is_empty());
}

#[test]
fn actions_compare() {
    assert_eq!(null_ai(), Action::Nope);
    assert_ne!(Action::Move(0, 1), Action::Move(1, 0));
    assert_eq!(Action::Attack(EntityKey { id: 4 }), Action::Attack(EntityKey { id: 4 }));
}

struct Floor;

struct Open;

impl Occluder for Open {
    fn opaque(&self) -> bool {
        false
    }

    fn occludes(&self) -> bool {
        false
    }
}

impl GridMap for Floor {
    type Output = Open;

    fn inside(&self, x: u16, y: u16) -> bool {
        x < region::WIDTH && y < region::HEIGHT
    }

    fn occluded(&self, _: u16, _: u16) -> bool {
        false
    }

    fn in_bounds(&self, x: u16, y: u16) -> bool {
        x < region::WIDTH && y < region::HEIGHT
    }

    fn index(&self, _: (u16, u16)) -> &Open {
        &Open
    }

    fn index_mut(&mut self, _: (u16, u16)) -> &mut Open {
        Box::leak(Box::new(Open))
    }
}

#[test]
fn light_component_knows_its_class() {
    let player = LightComponent::new(LightComponentClassId::Player);
    let torch = LightComponent::new(LightComponentClassId::Torch);
    assert_eq!(player.class(), LightComponentClassId::Player);
    assert_eq!(player.color(), Color::new(0x0a0a0a));
    assert_eq!(torch.color(), Color::new(0xff5000));
    assert!(torch.lit_points().is_empty());
}

#[test]
fn light_reaches_eight_tiles() {
    let mut torch = LightComponent::new(LightComponentClassId::Torch);
    cast(&mut torch, &Floor, p(40, 20));
    let lit = torch.lit_points();
    assert_eq!(lit[0], p(40, 20));
    let mut expected = 0;
    for x in 0..80i32 {
        for y in 0..40i32 {
            if (x - 40) * (x - 40) + (y - 20) * (y - 20) <= 64 {
                expected += 1;
                assert!(lit.contains(&p(x as u16, y as u16)), "({}, {}) is lit", x, y);
            }
        }
    }
    assert_eq!(lit.len(), expected);
}

#[test]
fn light_adds_to_what_is_lit_until_cleared() {
    let mut torch = LightComponent::new(LightComponentClassId::Torch);
    cast(&mut torch, &Floor, p(0, 0));
    let once = torch.lit_points().len();
    assert!(once > 1);
    cast(&mut torch, &Floor, p(0, 0));
    assert_eq!(torch.lit_points().len(), 2 * once);
    let copy = torch.clone();
    torch.clear_lit_points();
    assert!(torch.lit_points().is_empty());
    assert_eq!(torch.class(), LightComponentClassId::Torch);
    assert_eq!(copy.lit_points().len(), 2 * once);
}

#[test]
fn cast_radius_is_half_the_longer_side() {
    assert_eq!(min_cast_radius(), 40);
}

#[test]
fn clamp_keeps_within_bounds() {
    assert_eq!(clamp(5, 0, 10), 5);
    assert_eq!(clamp(-5, 0, 10), 0);
    assert_eq!(clamp(15, 0, 10), 10);
    assert_eq!(clamp(0, 0, 0), 0);
    // Where the bounds cross, the lower bound is tried first.
    assert_eq!(clamp(-1, 0, -3), 0);
    assert_eq!(clamp(5, 0, -3), -3);
}

#[test]
fn point_refuses_negative_parts() {
    assert_eq!(point(3, 4), Some((3, 4)));
    assert_eq!(point(0, 0), Some((0, 0)));
    assert_eq!(point(-1, 4), None);
    assert_eq!(point(3, -1), None);
    assert_eq!(point(65536 + 7, 2), Some((7, 2)));
}

#[test]
fn camera_follows_the_player() {
    let size = Size { height: 24, width: 60 };
    // The window is 60 wide and 24 high around (40, 20): x from 10, y from 8.
    assert_eq!(xy_to_linecol(40, 20, size, p(40, 20)), Some((11, 30)));
    assert_eq!(xy_to_linecol(10, 8, size, p(40, 20)), Some((23, 0)));
    assert_eq!(xy_to_linecol(69, 31, size, p(40, 20)), Some((0, 59)));
    // Left of and below the window.
    assert_eq!(xy_to_linecol(9, 20, size, p(40, 20)), None);
    assert_eq!(xy_to_linecol(40, 32, size, p(40, 20)), None);
}

#[test]
fn camera_stops_at_the_edges_of_the_region() {
    let size = Size { height: 24, width: 60 };
    // Near the lower left corner the window starts at (0, 0).
    assert_eq!(xy_to_linecol(0, 0, size, p(3, 2)), Some((23, 0)));
    assert_eq!(xy_to_linecol(3, 2, size, p(3, 2)), Some((21, 3)));
    // Near the upper right corner it ends at (79, 39): x from 20, y from 16.
    assert_eq!(xy_to_linecol(79, 39, size, p(78, 38)), Some((0, 59)));
    assert_eq!(xy_to_linecol(20, 16, size, p(78, 38)), Some((23, 0)));
    assert_eq!(xy_to_linecol(19, 16, size, p(78, 38)), None);
}

#[test]
fn camera_on_a_screen_as_large_as_the_region() {
    let size = Size { height: 40, width: 80 };
    assert_eq!(xy_to_linecol(0, 0, size, p(40, 20)), Some((39, 0)));
    assert_eq!(xy_to_linecol(79, 39, size, p(40, 20)), Some((0, 79)));
}

#[test]
fn player_leaves_by_stepping_straight_across_a_border() {
    assert_eq!(is_player_leaving_region(p(0, 5), o(-1, 0)), (true, Direction::West));
    assert_eq!(is_player_leaving_region(p(5, 0), o(0, -1)), (true, Direction::South));
    assert_eq!(is_player_leaving_region(p(79, 5), o(1, 0)), (true, Direction::East));
    assert_eq!(is_player_leaving_region(p(5, 39), o(0, 1)), (true, Direction::North));
}

#[test]
fn player_stays_with_any_other_step() {
    assert_eq!(is_player_leaving_region(p(0, 5), o(1, 0)), (false, Direction::West));
    assert_eq!(is_player_leaving_region(p(0, 5), o(-1, 1)), (false, Direction::West));
    assert_eq!(is_player_leaving_region(p(5, 39), o(1, 1)), (false, Direction::North));
    assert_eq!(is_player_leaving_region(p(40, 20), o(-1, 0)), (false, Direction::South));
    assert_eq!(is_player_leaving_region(p(78, 38), o(1, 1)), (false, Direction::South));
}

#[test]
fn corner_belongs_to_the_border_named_first() {
    assert_eq!(is_player_leaving_region(p(0, 0), o(-1, 0)), (true, Direction::West));
    assert_eq!(is_player_leaving_region(p(0, 0), o(0, -1)), (false, Direction::West));
    assert_eq!(is_player_leaving_region(p(79, 0), o(1, 0)), (false, Direction::South));
    assert_eq!(is_player_leaving_region(p(79, 39), o(0, 1)), (false, Direction::East));
}

#[test]
fn entity_enters_on_the_near_border() {
    assert_eq!(entry_point(p(7, 39), Direction::North), p(7, 0));
    assert_eq!(entry_point(p(7, 0), Direction::South), p(7, 39));
    assert_eq!(entry_point(p(79, 9), Direction::East), p(0, 9));
    assert_eq!(entry_point(p(0, 9), Direction::West), p(79, 9));
}

#[test]
fn sound_item_corrodes_once() {
    let mut sword = Item::new(ItemClassId::Sword);
    assert_eq!(sword.corrode(), Some("Your Sword corrodes!".to_string()));
    assert!(sword.corroded);
    assert_eq!(sword.class, ItemClassId::Sword);
    assert_eq!(sword.corrode(), None);
    assert!(sword.corroded);
    assert_eq!(sword.to_string(), "corroded Sword");
}

#[test]
fn attack_is_reported_by_the_kinds_of_both() {
    assert_eq!(
        EntityClassId::Snake.attack_message(EntityClassId::Torch),
        "The Snake attacks the Torch!"
    );
    assert_eq!(
        EntityClassId::Snake.attack_message(EntityClassId::Player),
        "The Snake attacks the Player!"
    );
    assert_eq!(
        EntityClassId::Player.attack_message(EntityClassId::Snake),
        "The Player attacks the Snake!"
    );
}
