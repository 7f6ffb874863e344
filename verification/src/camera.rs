//! Where the tiles of a region fall on the screen, and how they are drawn
//! there.
//!
//! The screen shows a window of the region that follows the player and
//! stops at the region's edges. Tiles count `y` upward, the screen counts
//! lines downward. What the player has seen before is drawn in gray, and
//! over it what they see now.

use crate::color::Color;
use crate::frontend::buffer::BufferView;
use crate::frontend::Attributes;
use crate::frontend::Screen;
use crate::frontend::Size;
use crate::shadow::field_of_view;
use crate::shadow::is_call;
use crate::shadow::lemma_field_of_view;
use crate::shadow::shape_of;
use crate::shadow::visible;
use crate::world::point::Point;
use crate::world::region::holds;
use crate::world::region::index_of;
use crate::world::region::Region;
use crate::world::region::HEIGHT;
use crate::world::region::TILES;
use crate::world::region::WIDTH;
use crate::world::tile::Tile;
use vstd::prelude::*;

verus! {

/// `val`, or the bound that it oversteps. Where the bounds cross, the lower
/// one is tried first.
pub open spec fn clamped(val: int, min: int, max: int) -> int {
    if val < min {
        min
    } else if val > max {
        max
    } else {
        val
    }
}

/// The x of the leftmost tile on a screen of the given width.
pub open spec fn left_tile(player: Point, size: Size) -> int {
    clamped(player.x - size.width / 2, 0, WIDTH - size.width)
}

/// The y of the lowest tile on a screen of the given height.
pub open spec fn low_tile(player: Point, size: Size) -> int {
    clamped(player.y - size.height / 2, 0, HEIGHT - size.height)
}

/// The line of a tile, counted from the top of the screen; negative where
/// the tile lies below the screen.
pub open spec fn line_of(y: u16, size: Size, player: Point) -> int {
    size.height - (y - low_tile(player, size)) - 1
}

/// The column of a tile; negative where the tile lies left of the screen.
pub open spec fn col_of(x: u16, size: Size, player: Point) -> int {
    x - left_tile(player, size)
}

/// Half the longer side of a region.
pub open spec fn cast_radius() -> int {
    if WIDTH > HEIGHT {
        WIDTH as int / 2
    } else {
        HEIGHT as int / 2
    }
}

/// A radius that reaches from the middle of a region to its edge along the
/// longer side.
pub fn min_cast_radius() -> (radius: u16)
    ensures
        radius == cast_radius(),
        radius == 40,
{
    if WIDTH > HEIGHT {
        WIDTH / 2
    } else {
        HEIGHT / 2
    }
}

/// The line and column at which the tile `(x, y)` is drawn, or `None` where
/// it lies left of or below the screen.
pub fn xy_to_linecol(x: u16, y: u16, size: Size, player_pos: Point) -> (place: Option<(u16, u16)>)
    ensures
        place is Some <==> line_of(y, size, player_pos) >= 0 && col_of(x, size, player_pos) >= 0,
        place is Some ==> place.unwrap().0 as int == line_of(y, size, player_pos) % 0x10000
            && place.unwrap().1 as int == col_of(x, size, player_pos) % 0x10000,
{
    let tlx = clamp(
        player_pos.x as i32 - size.width as i32 / 2,
        0,
        WIDTH as i32 - size.width as i32,
    );
    let tly = clamp(
        player_pos.y as i32 - size.height as i32 / 2,
        0,
        HEIGHT as i32 - size.height as i32,
    );
    let x = x as i32 - tlx;
    let y = y as i32 - tly;
    point(size.height as i32 - y - 1, x)
}

/// The pair as a place on the screen, unless a part of it is negative.
/// Parts beyond `u16` wrap round.
pub fn point(line: i32, col: i32) -> (place: Option<(u16, u16)>)
    ensures
        place is Some <==> line >= 0 && col >= 0,
        place is Some ==> place.unwrap().0 as int == line % 0x10000 && place.unwrap().1 as int
            == col % 0x10000,
{
    if line >= 0 && col >= 0 {
        Some(((line % 0x10000) as u16, (col % 0x10000) as u16))
    } else {
        None
    }
}

pub fn clamp(val: i32, min: i32, max: i32) -> (kept: i32)
    ensures
        kept == clamped(val as int, min as int, max as int),
{
    if val < min {
        min
    } else if val > max {
        max
    } else {
        val
    }
}

/// The place on the screen at which the tile `(x, y)` is drawn, if any.
pub open spec fn place_of(x: u16, y: u16, size: Size, player: Point) -> Option<crate::frontend::Point> {
    if line_of(y, size, player) >= 0 && col_of(x, size, player) >= 0 {
        Some(
            crate::frontend::Point {
                line: (line_of(y, size, player) % 0x10000) as u16,
                col: (col_of(x, size, player) % 0x10000) as u16,
            },
        )
    } else {
        None
    }
}

/// The screen after a token was drawn on it for the tile `(x, y)`, on
/// black. A token in black, and one for a tile that has no place on the
/// screen, leave the screen as it is.
pub open spec fn with_token(
    view: BufferView,
    token: Seq<char>,
    color: Color,
    x: u16,
    y: u16,
    player: Point,
) -> BufferView {
    if color != (Color { r: 0, g: 0, b: 0 }) && place_of(x, y, view.size, player) is Some {
        view.drawn(
            token,
            place_of(x, y, view.size, player).unwrap(),
            color,
            Color { r: 0, g: 0, b: 0 },
            Attributes { bits: 0 },
        )
    } else {
        view
    }
}

/// The screen after what was last seen of a tile was drawn on it in gray.
pub open spec fn with_seen(view: BufferView, tile: Tile, x: u16, y: u16, player: Point) -> BufferView {
    with_token(view, tile.seen_token@, tile.seen_color.gray(), x, y, player)
}

/// The screen after what was last seen of the first `count` tiles was
/// drawn, column by column from the left, every column from the bottom up.
pub open spec fn with_seen_upto(view: BufferView, tiles: Seq<Tile>, player: Point, count: int) -> BufferView
    decreases count,
{
    if count <= 0 {
        view
    } else {
        with_seen(
            with_seen_upto(view, tiles, player, count - 1),
            tiles[((count - 1) % (HEIGHT as int)) * WIDTH + (count - 1) / (HEIGHT as int)],
            ((count - 1) / (HEIGHT as int)) as u16,
            ((count - 1) % (HEIGHT as int)) as u16,
            player,
        )
    }
}

/// Draws a token for the tile `(x, y)`, which the player sees, and lets the
/// tile remember token and color as what was last seen of it.
pub fn draw_tile(
    screen: &mut Screen,
    tile: &mut Tile,
    x: u16,
    y: u16,
    token: &'static str,
    color: Color,
    pos: Point,
)
    ensures
        *final(tile) == (Tile { seen_token: token, seen_color: color, ..*old(tile) }),
        final(screen)@ == with_token(old(screen)@, token@, color, x, y, pos),
        *final(final(screen).buffer) == *final(old(screen).buffer),
{
    tile.seen_token = token;
    tile.seen_color = color;
    if color != Color::black() {
        match xy_to_linecol(x, y, screen.size(), pos) {
            Some(place) => {
                screen.draw(
                    token,
                    crate::frontend::Point { line: place.0, col: place.1 },
                    color,
                    Color::black(),
                    Attributes::normal(),
                );
            },
            None => {},
        }
    }
}

/// Draws what the player remembers: of every tile of the region, what was
/// last seen of it, in gray.
pub fn draw_seen(screen: &mut Screen, region: &Region, pos: Point)
    ensures
        final(screen)@ == with_seen_upto(old(screen)@, region@, pos, TILES as int),
        *final(final(screen).buffer) == *final(old(screen).buffer),
{
    let ghost start = screen@;
    let mut x: u16 = 0;
    while x < WIDTH
        invariant
            x <= WIDTH,
            screen@ == with_seen_upto(start, region@, pos, x * HEIGHT),
            screen@.size == start.size,
            *final(screen.buffer) == *final(old(screen).buffer),
        decreases WIDTH - x,
    {
        let mut y: u16 = 0;
        while y < HEIGHT
            invariant
                x < WIDTH,
                y <= HEIGHT,
                    screen@ == with_seen_upto(start, region@, pos, x * HEIGHT + y),
                screen@.size == start.size,
                *final(screen.buffer) == *final(old(screen).buffer),
            decreases HEIGHT - y,
        {
            let tile = region.index(Point { x, y });
            let color = tile.seen_color.to_gray();
            let ghost before = screen@;
            proof {
                let count = x * HEIGHT + y + 1;
                assert((count - 1) / (HEIGHT as int) == x && (count - 1) % (HEIGHT as int) == y);
                assert(*tile == region@[y * WIDTH + x]);
            }
            if color != Color::black() {
                match xy_to_linecol(x, y, screen.size(), pos) {
                    Some(place) => {
                        screen.draw(
                            tile.seen_token,
                            crate::frontend::Point { line: place.0, col: place.1 },
                            color,
                            Color::black(),
                            Attributes::normal(),
                        );
                    },
                    None => {},
                }
            }
            assert(screen@ == with_seen(before, *tile, x, y, pos));
            y = y + 1;
        }
        x = x + 1;
    }
}

/// The tiles of a region and the screen, in the course of drawing what the
/// player sees.
pub struct Scene {
    pub tiles: Seq<Tile>,
    pub view: BufferView,
}

/// The scene after the tile at `cell` was seen with a token in a color: the
/// tile remembers both, and the token is drawn for it.
pub open spec fn scene_after(
    scene: Scene,
    cell: (u16, u16),
    token: &'static str,
    color: Color,
    player: Point,
) -> Scene {
    let at = index_of(Point { x: cell.0, y: cell.1 });
    Scene {
        tiles: scene.tiles.update(
            at,
            Tile { seen_token: token, seen_color: color, ..scene.tiles[at] },
        ),
        view: with_token(scene.view, token@, color, cell.0, cell.1, player),
    }
}

/// Whether `trail` follows the scene through the drawing of `cells`, one
/// after the other, each with the token and the color that `look` found
/// for its tile as the scene had it then.
pub open spec fn follows<F: FnMut(&Tile, (u16, u16)) -> (&'static str, Color)>(
    look: F,
    cells: Seq<(u16, u16)>,
    trail: Seq<Scene>,
    player: Point,
) -> bool {
    &&& trail.len() == cells.len() + 1
    &&& forall|i: int| #[trigger]
        is_call(cells, i) ==> exists|token: &'static str, color: Color|
            #[trigger] look.ensures(
                (&trail[i].tiles[index_of(Point { x: cells[i].0, y: cells[i].1 })], cells[i]),
                (token, color),
            ) && trail[i + 1] == scene_after(trail[i], cells[i], token, color, player)
}

/// Draws what the player sees from `pos`: every tile in view, with the
/// token and the color that `look` finds for it, and lets the tiles
/// remember what was seen of them.
pub fn draw_visible<F: FnMut(&Tile, (u16, u16)) -> (&'static str, Color)>(
    screen: &mut Screen,
    region: &mut Region,
    pos: Point,
    mut look: F,
)
    requires
        holds(pos),
        forall|tile: &Tile, cell: (u16, u16)|
            cell.0 < WIDTH && cell.1 < HEIGHT ==> #[trigger] look.requires((tile, cell)),
    ensures
        exists|trail: Seq<Scene>|
            {
                &&& #[trigger] follows(
                    look,
                    field_of_view(shape_of(old(region)), (pos.x, pos.y), cast_radius()),
                    trail,
                    pos,
                )
                &&& trail[0] == (Scene { tiles: old(region)@, view: old(screen)@ })
                &&& trail.last() == (Scene { tiles: final(region)@, view: final(screen)@ })
            },
        *final(final(screen).buffer) == *final(old(screen).buffer),
{
    let cells = visible(&*region, (pos.x, pos.y), min_cast_radius());
    proof {
        lemma_field_of_view(&*region, (pos.x, pos.y), cast_radius());
    }
    let ghost callee = look;
    let ghost mut trail: Seq<Scene> = seq![Scene { tiles: region@, view: screen@ }];
    let mut done: usize = 0;
    while done < cells.len()
        invariant
            done <= cells@.len(),
            look == callee,
            cells@ == field_of_view(shape_of(old(region)), (pos.x, pos.y), cast_radius()),
            forall|i: int| 0 <= i < cells@.len() ==> (#[trigger] cells@[i]).0 < WIDTH && cells@[i].1 < HEIGHT,
            forall|tile: &Tile, cell: (u16, u16)|
                cell.0 < WIDTH && cell.1 < HEIGHT ==> #[trigger] look.requires((tile, cell)),
            trail.len() == done + 1,
            trail[0] == (Scene { tiles: old(region)@, view: old(screen)@ }),
            trail[done as int] == (Scene { tiles: region@, view: screen@ }),
            forall|i: int| #[trigger]
                is_call(cells@, i) && i < done ==> exists|token: &'static str, color: Color|
                    #[trigger] look.ensures(
                        (
                            &trail[i].tiles[index_of(Point { x: cells@[i].0, y: cells@[i].1 })],
                            cells@[i],
                        ),
                        (token, color),
                    ) && trail[i + 1] == scene_after(trail[i], cells@[i], token, color, pos),
            *final(screen.buffer) == *final(old(screen).buffer),
        decreases cells@.len() - done,
    {
        let ghost settled = trail;
        let ghost before = Scene { tiles: region@, view: screen@ };
        let cell = cells[done];
        let at = Point { x: cell.0, y: cell.1 };
        let (token, color) = look(region.index(at), cell);
        draw_tile(screen, region.index_mut(at), cell.0, cell.1, token, color, pos);
        proof {
            let after = Scene { tiles: region@, view: screen@ };
            assert(after == scene_after(before, cell, token, color, pos));
            trail = trail.push(after);
            assert forall|i: int| #[trigger] is_call(cells@, i) && i < done + 1 implies exists|
                token: &'static str,
                color: Color,
            |
                #[trigger] look.ensures(
                    (
                        &trail[i].tiles[index_of(Point { x: cells@[i].0, y: cells@[i].1 })],
                        cells@[i],
                    ),
                    (token, color),
                ) && trail[i + 1] == scene_after(trail[i], cells@[i], token, color, pos) by {
                if i < done {
                    assert(trail[i] == settled[i] && trail[i + 1] == settled[i + 1]);
                } else {
                    assert(trail[i] == before && trail[i + 1] == after);
                    assert(look.ensures((&before.tiles[index_of(at)], cell), (token, color)));
                }
            }
        }
        done = done + 1;
    }
    assert(follows(look, cells@, trail, pos));
}

/// Draws the region as the player knows it: first what they remember, in
/// gray, then over it what they see.
pub fn camera<F: FnMut(&Tile, (u16, u16)) -> (&'static str, Color)>(
    screen: &mut Screen,
    region: &mut Region,
    pos: Point,
    look: F,
)
    requires
        holds(pos),
        forall|tile: &Tile, cell: (u16, u16)|
            cell.0 < WIDTH && cell.1 < HEIGHT ==> #[trigger] look.requires((tile, cell)),
    ensures
        exists|trail: Seq<Scene>|
            {
                &&& #[trigger] follows(
                    look,
                    field_of_view(shape_of(old(region)), (pos.x, pos.y), cast_radius()),
                    trail,
                    pos,
                )
                &&& trail[0] == (Scene {
                    tiles: old(region)@,
                    view: with_seen_upto(old(screen)@, old(region)@, pos, TILES as int),
                })
                &&& trail.last() == (Scene { tiles: final(region)@, view: final(screen)@ })
            },
        *final(final(screen).buffer) == *final(old(screen).buffer),
{
    draw_seen(screen, &*region, pos);
    draw_visible(screen, region, pos, look);
}

/// On a screen no larger than the region, the tile of the player is on the
/// screen, and so is every tile of the window around it.
pub proof fn lemma_player_on_screen(size: Size, player: Point)
    requires
        0 < size.width <= WIDTH,
        0 < size.height <= HEIGHT,
        player.x < WIDTH,
        player.y < HEIGHT,
    ensures
        0 <= col_of(player.x, size, player) < size.width,
        0 <= line_of(player.y, size, player) < size.height,
{
}

} // verus!
