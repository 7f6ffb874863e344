//! A shadowcaster with open borders and a strict radius.
//!
//! It scans the same octants through the same windows of slopes as
//! [`crate::shadow`], with three differences: a cell whose near slope lies
//! above the window is passed over even where its far slope lies below the
//! window's end; a cell at exactly the radius is out of reach; and the
//! cells on the border of two octants are visited by both.

use crate::shadow::addressable;
use crate::shadow::shape_of;
use crate::shadow::GridMap;
use crate::shadow::Occluder;
use crate::shadow::Shape;
use crate::shadow::Slope;
use vstd::prelude::*;

verus! {

/// The place of the cell `step` cells off the axis in row `row` of an
/// octant, relative to the origin. The canonical octant lies toward
/// negative x and y; the axes are swapped where bit 0 of the octant is
/// set, x is mirrored where bit 1 is set, and y where bit 2 is set.
pub open spec fn offset_at(row: int, step: int, octant: u8) -> (int, int) {
    let dx = if octant & 1 != 0 {
        -row
    } else {
        -step
    };
    let dy = if octant & 1 != 0 {
        -step
    } else {
        -row
    };
    (if octant & 2 != 0 {
        -dx
    } else {
        dx
    }, if octant & 4 != 0 {
        -dy
    } else {
        dy
    })
}

/// The place of a cell of an octant on the grid.
pub open spec fn placed_at(origin: (u16, u16), row: int, step: int, octant: u8) -> (int, int) {
    (origin.0 + offset_at(row, step, octant).0, origin.1 + offset_at(row, step, octant).1)
}

/// Whether a cell is within reach: strictly nearer than the radius.
pub open spec fn reached(row: int, step: int, radius: int) -> bool {
    step * step + row * row < radius * radius
}

/// The cell at a place as the scan reports it, if it is within reach.
pub open spec fn visit_at(place: (int, int), row: int, step: int, radius: int) -> Seq<(u16, u16)> {
    if reached(row, step, radius) {
        seq![(place.0 as u16, place.1 as u16)]
    } else {
        Seq::empty()
    }
}

/// How the scan of a row has ended: the cells it visited, those of the
/// scans behind its occluders included, the window for the next row, and
/// whether its last cell in view occluded.
pub struct RowView {
    pub cells: Seq<(u16, u16)>,
    pub start: Slope,
    pub next: Slope,
    pub blocked: bool,
}

impl RowView {
    /// The scan with `cells` visited before it.
    pub open spec fn after(self, cells: Seq<(u16, u16)>) -> RowView {
        RowView { cells: cells + self.cells, ..self }
    }
}

/// The scan of one row of an octant from the cell `step` cells off the
/// axis toward the axis.
pub open spec fn view_row(
    shape: Shape,
    origin: (u16, u16),
    radius: int,
    octant: u8,
    row: int,
    step: int,
    start: Slope,
    next: Slope,
    end: Slope,
    blocked: bool,
) -> RowView
    decreases radius + 1 - row, step + 1,
{
    let rest = RowView { cells: Seq::empty(), start, next, blocked };
    if step < 0 || row < 1 || row > radius || radius > 0xffff || step > row {
        rest
    } else if start.less(Slope::near(row, step)) {
        view_row(shape, origin, radius, octant, row, step - 1, start, next, end, blocked)
    } else if Slope::far(row, step).less(end) {
        rest
    } else if !shape.inside.contains(placed_at(origin, row, step, octant)) {
        view_row(shape, origin, radius, octant, row, step - 1, start, next, end, blocked)
    } else {
        let place = placed_at(origin, row, step, octant);
        let here = visit_at(place, row, step, radius);
        let near = Slope::near(row, step);
        if shape.walls.contains(place) {
            if blocked {
                view_row(shape, origin, radius, octant, row, step - 1, start, near, end, true).after(
                    here,
                )
            } else {
                view_row(shape, origin, radius, octant, row, step - 1, start, near, end, true).after(
                    here + view_octant(
                        shape,
                        origin,
                        radius,
                        octant,
                        row + 1,
                        start,
                        Slope::far(row, step),
                    ),
                )
            }
        } else if blocked {
            view_row(shape, origin, radius, octant, row, step - 1, next, next, end, false).after(
                here,
            )
        } else {
            view_row(shape, origin, radius, octant, row, step - 1, start, next, end, false).after(
                here,
            )
        }
    }
}

/// The scan of the rows of an octant from `row` out to the radius. It ends
/// with the first row whose last cell in view occludes.
pub open spec fn view_rows(
    shape: Shape,
    origin: (u16, u16),
    radius: int,
    octant: u8,
    row: int,
    start: Slope,
    next: Slope,
    end: Slope,
) -> Seq<(u16, u16)>
    decreases radius + 1 - row, 0x20000int,
{
    if row < 1 || row > radius || radius > 0xffff {
        Seq::empty()
    } else {
        let scan = view_row(shape, origin, radius, octant, row, row, start, next, end, false);
        if scan.blocked {
            scan.cells
        } else {
            scan.cells + view_rows(shape, origin, radius, octant, row + 1, scan.start, scan.next, end)
        }
    }
}

/// The scan of an octant from `row` on, through the window from `start`
/// down to `end`.
pub open spec fn view_octant(
    shape: Shape,
    origin: (u16, u16),
    radius: int,
    octant: u8,
    row: int,
    start: Slope,
    end: Slope,
) -> Seq<(u16, u16)>
    decreases radius + 1 - row, 0x20001int,
{
    if start.less(end) {
        Seq::empty()
    } else {
        view_rows(shape, origin, radius, octant, row, start, start, end)
    }
}

/// The scans of the octants from `octant` to the last.
pub open spec fn view_octants(shape: Shape, origin: (u16, u16), radius: int, octant: u8) -> Seq<
    (u16, u16),
>
    decreases 8 - octant,
{
    if octant >= 8 {
        Seq::empty()
    } else {
        view_octant(shape, origin, radius, octant, 1, Slope::one(), Slope::zero()) + view_octants(
            shape,
            origin,
            radius,
            (octant + 1) as u8,
        )
    }
}

/// What is seen from the origin: the origin, then what each of the eight
/// octants shows, in the order of the octants.
pub open spec fn view_at(shape: Shape, origin: (u16, u16), radius: int) -> Seq<(u16, u16)> {
    seq![origin] + view_octants(shape, origin, radius, 0)
}

/// The place of a cell of an octant on the grid, or `None` where a
/// coordinate of it does not fit in `u16`.
pub fn transform_point_by_octant(origin: (u16, u16), row: u32, step: u32, octant: u8) -> (place:
    Option<(u16, u16)>)
    requires
        row <= 0xffff,
        step <= 0xffff,
    ensures
        place is Some <==> addressable(placed_at(origin, row as int, step as int, octant)),
        place is Some ==> (place.unwrap().0 as int, place.unwrap().1 as int) == placed_at(
            origin,
            row as int,
            step as int,
            octant,
        ),
{
    let mut dx: i32 = -(step as i32);
    let mut dy: i32 = -(row as i32);
    if octant & 1 != 0 {
        dx = -(row as i32);
        dy = -(step as i32);
    }
    if octant & 2 != 0 {
        dx = -dx;
    }
    if octant & 4 != 0 {
        dy = -dy;
    }
    let x: i32 = origin.0 as i32 + dx;
    let y: i32 = origin.1 as i32 + dy;
    if 0 <= x && x <= 0xffff && 0 <= y && y <= 0xffff {
        Some((x as u16, y as u16))
    } else {
        None
    }
}

/// Whether a cell is within reach.
fn in_reach(row: u32, step: u32, radius: u32) -> (near: bool)
    requires
        row <= 0xffff,
        step <= 0xffff,
        radius <= 0xffff,
    ensures
        near == reached(row as int, step as int, radius as int),
{
    proof {
        lemma_square(row as int);
        lemma_square(step as int);
        lemma_square(radius as int);
    }
    let r = row as u64;
    let s = step as u64;
    let limit = radius as u64;
    s * s + r * r < limit * limit
}

proof fn lemma_square(a: int)
    requires
        0 <= a <= 0xffff,
    ensures
        0 <= a * a <= 0xffff * 0xffff,
{
    assert(0 <= a * a <= 0xffff * 0xffff) by (nonlinear_arith)
        requires
            0 <= a <= 0xffff,
    ;
}

/// Appends the scan of an octant from `row` on, through the window from
/// `start` down to `end`.
pub fn cast_octant_at<M: GridMap>(
    map: &M,
    origin: (u16, u16),
    radius: u32,
    row: u32,
    start: Slope,
    end: Slope,
    octant: u8,
    out: &mut Vec<(u16, u16)>,
)
    requires
        radius <= 0xffff,
        1 <= row <= radius + 1,
        start.wf(),
        end.wf(),
    ensures
        final(out)@ == old(out)@ + view_octant(
            shape_of(map),
            origin,
            radius as int,
            octant,
            row as int,
            start,
            end,
        ),
    decreases radius + 1 - row,
{
    if start.below(&end) {
        assert(out@ =~= old(out)@ + Seq::<(u16, u16)>::empty());
        return ;
    }
    let ghost shape = shape_of(map);
    let ghost whole = view_rows(shape, origin, radius as int, octant, row as int, start, start, end);
    let mut start = start;
    let mut next = start;
    let mut line = row;
    while line <= radius
        invariant_except_break
            out@ + view_rows(shape, origin, radius as int, octant, line as int, start, next, end)
                == old(out)@ + whole,
        invariant
            radius <= 0xffff,
            1 <= row <= line <= radius + 1,
            start.wf(),
            next.wf(),
            end.wf(),
            shape == shape_of(map),
        ensures
            out@ == old(out)@ + whole,
        decreases radius + 1 - line,
    {
        let ghost row_start = out@;
        let ghost row_whole = view_row(
            shape,
            origin,
            radius as int,
            octant,
            line as int,
            line as int,
            start,
            next,
            end,
            false,
        );
        let mut blocked = false;
        let mut step: i64 = line as i64;
        while step >= 0
            invariant_except_break
                out@ + view_row(
                    shape,
                    origin,
                    radius as int,
                    octant,
                    line as int,
                    step as int,
                    start,
                    next,
                    end,
                    blocked,
                ).cells == row_start + row_whole.cells,
                view_row(
                    shape,
                    origin,
                    radius as int,
                    octant,
                    line as int,
                    step as int,
                    start,
                    next,
                    end,
                    blocked,
                ).start == row_whole.start,
                view_row(
                    shape,
                    origin,
                    radius as int,
                    octant,
                    line as int,
                    step as int,
                    start,
                    next,
                    end,
                    blocked,
                ).next == row_whole.next,
                view_row(
                    shape,
                    origin,
                    radius as int,
                    octant,
                    line as int,
                    step as int,
                    start,
                    next,
                    end,
                    blocked,
                ).blocked == row_whole.blocked,
            invariant
                radius <= 0xffff,
                1 <= row <= line <= radius,
                -1 <= step <= line,
                start.wf(),
                next.wf(),
                end.wf(),
                shape == shape_of(map),
            ensures
                out@ == row_start + row_whole.cells,
                start == row_whole.start,
                next == row_whole.next,
                blocked == row_whole.blocked,
            decreases step + 1,
        {
            let far = Slope::far_of(line, step as u32);
            let near = Slope::near_of(line, step as u32);
            let ghost before = out@;
            let ghost scan = view_row(
                shape,
                origin,
                radius as int,
                octant,
                line as int,
                step as int,
                start,
                next,
                end,
                blocked,
            );
            if !start.below(&near) {
                if far.below(&end) {
                    assert(out@ =~= out@ + scan.cells);
                    break ;
                }
                match transform_point_by_octant(origin, line, step as u32, octant) {
                    Some(place) => {
                        if map.in_bounds(place.0, place.1) {
                            assert(shape.inside.contains(
                                placed_at(origin, line as int, step as int, octant),
                            ));
                            if in_reach(line, step as u32, radius) {
                                out.push(place);
                            }
                            let ghost here = visit_at(
                                placed_at(origin, line as int, step as int, octant),
                                line as int,
                                step as int,
                                radius as int,
                            );
                            assert(out@ =~= before + here);
                            let wall = map.index(place).occludes();
                            assert(wall == shape.walls.contains(
                                placed_at(origin, line as int, step as int, octant),
                            ));
                            if blocked {
                                if wall {
                                    next = near;
                                } else {
                                    blocked = false;
                                    start = next;
                                }
                            } else if wall {
                                blocked = true;
                                next = near;
                                cast_octant_at(map, origin, radius, line + 1, start, far, octant, out);
                            }
                            let ghost rest = view_row(
                                shape,
                                origin,
                                radius as int,
                                octant,
                                line as int,
                                step - 1,
                                start,
                                next,
                                end,
                                blocked,
                            );
                            assert(out@ + rest.cells =~= before + scan.cells);
                        } else {
                            assert(!shape.inside.contains(
                                placed_at(origin, line as int, step as int, octant),
                            ));
                        }
                    },
                    None => {
                        assert(!shape.inside.contains(
                            placed_at(origin, line as int, step as int, octant),
                        ));
                    },
                }
            }
            step = step - 1;
        }
        if blocked {
            break ;
        }
        line = line + 1;
    }
    assert(out@ =~= old(out)@ + whole);
}

/// What is seen from `(x, y)` within `radius`: the cell itself, then what
/// each octant shows.
pub fn visible_at<M: GridMap>(map: &M, x: u16, y: u16, radius: u16) -> (cells: Vec<(u16, u16)>)
    ensures
        cells@ == view_at(shape_of(map), (x, y), radius as int),
{
    let mut cells: Vec<(u16, u16)> = Vec::new();
    cells.push((x, y));
    let ghost shape = shape_of(map);
    let mut octant: u8 = 0;
    while octant < 8
        invariant
            octant <= 8,
            shape == shape_of(map),
            cells@ + view_octants(shape, (x, y), radius as int, octant) == view_at(
                shape,
                (x, y),
                radius as int,
            ),
        decreases 8 - octant,
    {
        let ghost before = cells@;
        cast_octant_at(
            map,
            (x, y),
            radius as u32,
            1,
            Slope { rise: 1, run: 1 },
            Slope { rise: 0, run: 1 },
            octant,
            &mut cells,
        );
        assert(cells@ + view_octants(shape, (x, y), radius as int, (octant + 1) as u8) =~= before
            + view_octants(shape, (x, y), radius as int, octant));
        octant = octant + 1;
    }
    assert(cells@ =~= cells@ + view_octants(shape, (x, y), radius as int, 8));
    cells
}

/// Whether every cell of a list is on the grid.
pub open spec fn all_inside<M: GridMap>(map: &M, cells: Seq<(u16, u16)>) -> bool {
    forall|i: int| 0 <= i < cells.len() ==> map.inside(#[trigger] cells[i].0, cells[i].1)
}

/// Every cell that an octant shows is on the grid.
pub proof fn lemma_octant_inside<M: GridMap>(
    map: &M,
    origin: (u16, u16),
    radius: int,
    octant: u8,
    row: int,
    start: Slope,
    end: Slope,
)
    ensures
        all_inside(map, view_octant(shape_of(map), origin, radius, octant, row, start, end)),
    decreases radius + 1 - row, 0x20001int,
{
    if !start.less(end) {
        lemma_rows_inside(map, origin, radius, octant, row, start, start, end);
    }
}

proof fn lemma_rows_inside<M: GridMap>(
    map: &M,
    origin: (u16, u16),
    radius: int,
    octant: u8,
    row: int,
    start: Slope,
    next: Slope,
    end: Slope,
)
    ensures
        all_inside(map, view_rows(shape_of(map), origin, radius, octant, row, start, next, end)),
    decreases radius + 1 - row, 0x20000int,
{
    let shape = shape_of(map);
    if !(row < 1 || row > radius || radius > 0xffff) {
        lemma_row_inside(map, origin, radius, octant, row, row, start, next, end, false);
        let scan = view_row(shape, origin, radius, octant, row, row, start, next, end, false);
        if !scan.blocked {
            lemma_rows_inside(map, origin, radius, octant, row + 1, scan.start, scan.next, end);
        }
    }
}

proof fn lemma_row_inside<M: GridMap>(
    map: &M,
    origin: (u16, u16),
    radius: int,
    octant: u8,
    row: int,
    step: int,
    start: Slope,
    next: Slope,
    end: Slope,
    blocked: bool,
)
    ensures
        all_inside(
            map,
            view_row(shape_of(map), origin, radius, octant, row, step, start, next, end, blocked).cells,
        ),
    decreases radius + 1 - row, step + 1,
{
    let shape = shape_of(map);
    if step < 0 || row < 1 || row > radius || radius > 0xffff || step > row {
    } else if start.less(Slope::near(row, step)) {
        lemma_row_inside(map, origin, radius, octant, row, step - 1, start, next, end, blocked);
    } else if Slope::far(row, step).less(end) {
    } else if !shape.inside.contains(placed_at(origin, row, step, octant)) {
        lemma_row_inside(map, origin, radius, octant, row, step - 1, start, next, end, blocked);
    } else {
        let near = Slope::near(row, step);
        let place = placed_at(origin, row, step, octant);
        if shape.walls.contains(place) {
            lemma_row_inside(map, origin, radius, octant, row, step - 1, start, near, end, true);
            if !blocked {
                lemma_octant_inside(map, origin, radius, octant, row + 1, start, Slope::far(row, step));
            }
        } else if blocked {
            lemma_row_inside(map, origin, radius, octant, row, step - 1, next, next, end, false);
        } else {
            lemma_row_inside(map, origin, radius, octant, row, step - 1, start, next, end, false);
        }
    }
}

/// Every cell that is seen, but perhaps the origin, is on the grid.
pub proof fn lemma_view_inside<M: GridMap>(map: &M, origin: (u16, u16), radius: int)
    ensures
        all_inside(map, view_octants(shape_of(map), origin, radius, 0)),
        view_at(shape_of(map), origin, radius).len() >= 1,
        view_at(shape_of(map), origin, radius)[0] == origin,
        forall|i: int|
            1 <= i < view_at(shape_of(map), origin, radius).len() ==> map.inside(
                #[trigger] view_at(shape_of(map), origin, radius)[i].0,
                view_at(shape_of(map), origin, radius)[i].1,
            ),
{
    lemma_octants_inside(map, origin, radius, 0);
    let rest = view_octants(shape_of(map), origin, radius, 0);
    let view = view_at(shape_of(map), origin, radius);
    assert forall|i: int| 1 <= i < view.len() implies map.inside(#[trigger] view[i].0, view[i].1) by {
        assert(view[i] == rest[i - 1]);
    }
}

proof fn lemma_octants_inside<M: GridMap>(map: &M, origin: (u16, u16), radius: int, octant: u8)
    ensures
        all_inside(map, view_octants(shape_of(map), origin, radius, octant)),
    decreases 8 - octant,
{
    if octant < 8 {
        lemma_octant_inside(map, origin, radius, octant, 1, Slope::one(), Slope::zero());
        lemma_octants_inside(map, origin, radius, (octant + 1) as u8);
    }
}

/// Whether visiting `cells` makes a call of number `index`, counted from
/// zero.
pub open spec fn is_call(cells: Seq<(u16, u16)>, index: int) -> bool {
    0 <= index < cells.len()
}

/// Whether two grids hold the same cells, and cells that block alike
/// everywhere but at `at`.
pub open spec fn alike_but_at<M: GridMap>(before: M, after: M, at: (u16, u16)) -> bool {
    &&& forall|x: u16, y: u16| after.inside(x, y) == before.inside(x, y)
    &&& forall|x: u16, y: u16|
        (x, y) != at ==> #[trigger] after.occluded(x, y) == before.occluded(x, y)
}

/// Calls `callback` on the cell at `(x, y)` and then on every cell that is
/// seen from there within `radius`, in the order of the view. What is seen
/// is settled by the grid as it is when the cast begins.
///
/// The contract follows the grid through the calls: `trail` holds the grid
/// before the first call, between any two, and after the last. Each call
/// is handed the cell at its place, and the grid changes nowhere else.
pub fn cast_at<M: GridMap, F: FnMut(&mut M::Output, u16, u16)>(
    map: &mut M,
    x: u16,
    y: u16,
    radius: u16,
    callback: F,
)
    requires
        old(map).inside(x, y),
        forall|cell: &mut M::Output, x: u16, y: u16| #[trigger] callback.requires((cell, x, y)),
    ensures
        forall|x: u16, y: u16| final(map).inside(x, y) == old(map).inside(x, y),
        exists|trail: Seq<M>|
            {
                let cells = view_at(shape_of(old(map)), (x, y), radius as int);
                &&& #[trigger] trail.len() == cells.len() + 1
                &&& trail[0] == *old(map)
                &&& trail[cells.len() as int] == *final(map)
                &&& forall|i: int| #[trigger]
                    is_call(cells, i) ==> alike_but_at(trail[i], trail[i + 1], cells[i])
                        && exists|cell: &mut M::Output|
                        cell.opaque() == trail[i].occluded(cells[i].0, cells[i].1) && final(cell).opaque() == trail[i + 1].occluded(cells[i].0, cells[i].1)
                            && #[trigger] callback.ensures((cell, cells[i].0, cells[i].1), ())
            },
{
    let ghost handed = callback;
    let mut callback = callback;
    let cells = visible_at(&*map, x, y, radius);
    proof {
        lemma_view_inside(&*map, (x, y), radius as int);
    }
    let ghost seen = cells@;
    let ghost mut trail: Seq<M> = seq![*map];
    let mut done: usize = 0;
    while done < cells.len()
        invariant
            done <= cells@.len(),
            callback == handed,
            cells@ == seen,
            old(map).inside(x, y),
            seen == view_at(shape_of(old(map)), (x, y), radius as int),
            forall|i: int| 1 <= i < seen.len() ==> old(map).inside(#[trigger] seen[i].0, seen[i].1),
            forall|x: u16, y: u16| map.inside(x, y) == old(map).inside(x, y),
            forall|cell: &mut M::Output, x: u16, y: u16| #[trigger] callback.requires((cell, x, y)),
            trail.len() == done + 1,
            trail[0] == *old(map),
            trail[done as int] == *map,
            forall|i: int| #[trigger]
                is_call(seen, i) && i < done ==> alike_but_at(trail[i], trail[i + 1], seen[i])
                    && exists|cell: &mut M::Output|
                    cell.opaque() == trail[i].occluded(seen[i].0, seen[i].1) && final(cell).opaque() == trail[i + 1].occluded(seen[i].0, seen[i].1)
                        && #[trigger] callback.ensures((cell, seen[i].0, seen[i].1), ()),
        decreases cells@.len() - done,
    {
        let place = cells[done];
        let ghost before = *map;
        let ghost settled = trail;
        assert(map.inside(place.0, place.1)) by {
            if done > 0 {
                assert(old(map).inside(seen[done as int].0, seen[done as int].1));
            }
        }
        callback(map.index_mut(place), place.0, place.1);
        proof {
            assert(exists|cell: &mut M::Output|
                cell.opaque() == before.occluded(place.0, place.1) && final(cell).opaque()
                    == map.occluded(place.0, place.1) && #[trigger] callback.ensures(
                    (cell, place.0, place.1),
                    (),
                ));
            assert(alike_but_at(before, *map, place));
            trail = trail.push(*map);
            assert forall|i: int| #[trigger] is_call(seen, i) && i < done + 1 implies alike_but_at(
                trail[i],
                trail[i + 1],
                seen[i],
            ) && exists|cell: &mut M::Output|
                cell.opaque() == trail[i].occluded(seen[i].0, seen[i].1) && final(cell).opaque()
                    == trail[i + 1].occluded(seen[i].0, seen[i].1) && #[trigger] callback.ensures(
                    (cell, seen[i].0, seen[i].1),
                    (),
                ) by {
                if i < done {
                    assert(trail[i] == settled[i] && trail[i + 1] == settled[i + 1]);
                }
            }
        }
        done = done + 1;
    }
    assert({
        &&& trail.len() == seen.len() + 1
        &&& trail[0] == *old(map)
        &&& trail[seen.len() as int] == *map
        &&& forall|i: int| #[trigger]
            is_call(seen, i) ==> alike_but_at(trail[i], trail[i + 1], seen[i]) && exists|
                cell: &mut M::Output,
            |
                cell.opaque() == trail[i].occluded(seen[i].0, seen[i].1) && final(cell).opaque()
                    == trail[i + 1].occluded(seen[i].0, seen[i].1) && #[trigger] handed.ensures(
                    (cell, seen[i].0, seen[i].1),
                    (),
                )
    });
}

} // verus!
