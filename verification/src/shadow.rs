//! Recursive shadowcasting: which cells of a grid can be seen from a point.
//!
//! The field of view is scanned in eight octants, each a mirror image of one
//! canonical wedge. A wedge is scanned column by column, outward from the
//! origin, and every column from its far edge toward the axis. The part of a
//! column that is in view is bounded by two slopes; an occluding cell
//! narrows that window for the columns behind it. Slopes are exact
//! fractions, so that no cell is won or lost to rounding.

pub mod octants;

use vstd::prelude::*;

verus! {

/// A cell that may block sight and light.
pub trait Occluder {
    /// Whether the cell lets neither sight nor light through.
    spec fn opaque(&self) -> bool;

    fn occludes(&self) -> (blocked: bool)
        ensures
            blocked == self.opaque(),
    ;
}

/// A grid of cells that is indexed by unsigned `(x, y)` pairs and can say
/// which pairs it holds.
pub trait GridMap {
    type Output: Occluder;

    /// Whether the grid holds a cell at `(x, y)`.
    spec fn inside(&self, x: u16, y: u16) -> bool;

    /// Whether the cell at `(x, y)` blocks.
    spec fn occluded(&self, x: u16, y: u16) -> bool;

    fn in_bounds(&self, x: u16, y: u16) -> (inside: bool)
        ensures
            inside == self.inside(x, y),
    ;

    fn index(&self, pos: (u16, u16)) -> (cell: &Self::Output)
        requires
            self.inside(pos.0, pos.1),
        ensures
            cell.opaque() == self.occluded(pos.0, pos.1),
    ;

    fn index_mut(&mut self, pos: (u16, u16)) -> (cell: &mut Self::Output)
        requires
            old(self).inside(pos.0, pos.1),
        ensures
            cell.opaque() == old(self).occluded(pos.0, pos.1),
            forall|x: u16, y: u16| final(self).inside(x, y) == old(self).inside(x, y),
            final(self).occluded(pos.0, pos.1) == final(cell).opaque(),
            forall|x: u16, y: u16|
                (x, y) != pos ==> #[trigger] final(self).occluded(x, y) == old(self).occluded(x, y),
    ;
}

/// What shadowcasting reads of a grid: where it has cells, and which of them
/// block. Coordinates are signed here, so that a position off the low edge
/// is simply not inside.
pub struct Shape {
    pub inside: Set<(int, int)>,
    pub walls: Set<(int, int)>,
}

/// Whether both coordinates fit in `u16`.
pub open spec fn addressable(p: (int, int)) -> bool {
    0 <= p.0 <= 0xffff && 0 <= p.1 <= 0xffff
}

/// The shape of a grid.
pub open spec fn shape_of<M: GridMap>(map: &M) -> Shape {
    Shape {
        inside: Set::new(|p: (int, int)| addressable(p) && map.inside(p.0 as u16, p.1 as u16)),
        walls: Set::new(
            |p: (int, int)|
                addressable(p) && map.inside(p.0 as u16, p.1 as u16) && map.occluded(
                    p.0 as u16,
                    p.1 as u16,
                ),
        ),
    }
}

/// The slope `rise / run` of a line through the origin of an octant.
#[derive(Clone, Copy, Debug)]
pub struct Slope {
    pub rise: i64,
    pub run: i64,
}

/// The largest numerator or denominator of a slope: twice the largest
/// column, and one.
pub const SLOPE_LIMIT: i64 = 0x1ffff;

impl Slope {
    /// The denominator is positive, and both parts are small enough for
    /// their products to fit.
    pub open spec fn wf(self) -> bool {
        0 < self.run <= SLOPE_LIMIT && -1 <= self.rise <= SLOPE_LIMIT
    }

    /// Whether this slope is strictly less steep than `other`.
    pub open spec fn less(self, other: Slope) -> bool {
        (self.rise as int) * (other.run as int) < (other.rise as int) * (self.run as int)
    }

    /// The slope of the diagonal.
    pub open spec fn one() -> Slope {
        Slope { rise: 1, run: 1 }
    }

    /// The slope of the axis.
    pub open spec fn zero() -> Slope {
        Slope { rise: 0, run: 1 }
    }

    /// The slope through the far corner of a cell on the side of the
    /// diagonal: `(row + 1/2) / (column - 1/2)`.
    pub open spec fn far(column: int, row: int) -> Slope {
        Slope { rise: (2 * row + 1) as i64, run: (2 * column - 1) as i64 }
    }

    /// The slope through the near corner of a cell on the side of the axis:
    /// `(row - 1/2) / (column + 1/2)`.
    pub open spec fn near(column: int, row: int) -> Slope {
        Slope { rise: (2 * row - 1) as i64, run: (2 * column + 1) as i64 }
    }
}

/// The place of the cell `(column, row)` of an octant, relative to the
/// origin: the axes are swapped where bit 0 of the octant is set, x is
/// mirrored where bit 1 is set, and y where bit 2 is set.
pub open spec fn offset(column: int, row: int, octant: u8) -> (int, int) {
    let dx = if octant & 1 != 0 {
        row
    } else {
        column
    };
    let dy = if octant & 1 != 0 {
        column
    } else {
        row
    };
    (if octant & 2 != 0 {
        -dx
    } else {
        dx
    }, if octant & 4 != 0 {
        -dy
    } else {
        dy
    })
}

/// The place of the cell `(column, row)` of an octant on the grid.
pub open spec fn placed(origin: (u16, u16), column: int, row: int, octant: u8) -> (int, int) {
    (origin.0 + offset(column, row, octant).0, origin.1 + offset(column, row, octant).1)
}

/// Whether a cell on the border of an octant is left to the neighbouring
/// octant: the diagonal in octants 0, 3, 5 and 6, the axis in the others.
pub open spec fn excluded(column: int, row: int, octant: u8) -> bool {
    if octant == 0 || octant == 3 || octant == 5 || octant == 6 {
        column == row
    } else {
        row == 0
    }
}

/// Whether the cell `(column, row)` of an octant is visited when it is in
/// view: it lies within the radius, by Euclidean distance, and the octant
/// does not leave it to its neighbour.
pub open spec fn visits(column: int, row: int, radius: int, octant: u8) -> bool {
    column * column + row * row <= radius * radius && !excluded(column, row, octant)
}

/// How the scan of a column has ended: the cells it visited, those of the
/// scans behind its occluders included, the window for the next column, and
/// whether its last cell in view occluded.
pub struct RowScan {
    pub cells: Seq<(u16, u16)>,
    pub start: Slope,
    pub next: Slope,
    pub occluded: bool,
}

impl RowScan {
    /// The scan with `cells` visited before it.
    pub open spec fn after(self, cells: Seq<(u16, u16)>) -> RowScan {
        RowScan { cells: cells + self.cells, ..self }
    }
}

/// The cell at a place as the scan reports it, if it is visited at all.
pub open spec fn visit(place: (int, int), column: int, row: int, radius: int, octant: u8) -> Seq<
    (u16, u16),
> {
    if visits(column, row, radius, octant) {
        seq![(place.0 as u16, place.1 as u16)]
    } else {
        Seq::empty()
    }
}

/// The scan of one column of an octant from `row` down to the axis.
///
/// `start` and `end` bound the window in view; `next` is the near slope of
/// the last occluder, from which the window starts again once the
/// occluders end; `occluded` tells whether the cell above occluded.
pub open spec fn scan_row(
    shape: Shape,
    origin: (u16, u16),
    radius: int,
    octant: u8,
    column: int,
    row: int,
    start: Slope,
    next: Slope,
    end: Slope,
    occluded: bool,
) -> RowScan
    decreases radius + 1 - column, row + 1,
{
    let rest = RowScan { cells: Seq::empty(), start, next, occluded };
    if row < 0 || column < 1 || column > radius || radius > 0xffff || row > column {
        rest
    } else if Slope::far(column, row).less(end) {
        rest
    } else if start.less(Slope::near(column, row)) {
        scan_row(shape, origin, radius, octant, column, row - 1, start, next, end, occluded)
    } else if !shape.inside.contains(placed(origin, column, row, octant)) {
        scan_row(shape, origin, radius, octant, column, row - 1, start, next, end, occluded)
    } else {
        let place = placed(origin, column, row, octant);
        let here = visit(place, column, row, radius, octant);
        let near = Slope::near(column, row);
        if shape.walls.contains(place) {
            if occluded {
                scan_row(shape, origin, radius, octant, column, row - 1, start, near, end, true).after(
                    here,
                )
            } else {
                scan_row(shape, origin, radius, octant, column, row - 1, start, near, end, true).after(
                    here + scan_octant(
                        shape,
                        origin,
                        radius,
                        octant,
                        column + 1,
                        start,
                        Slope::far(column, row),
                    ),
                )
            }
        } else if occluded {
            scan_row(shape, origin, radius, octant, column, row - 1, next, next, end, false).after(
                here,
            )
        } else {
            scan_row(shape, origin, radius, octant, column, row - 1, start, next, end, false).after(
                here,
            )
        }
    }
}

/// The scan of the columns of an octant from `column` out to the radius. It
/// ends with the first column whose last cell in view occludes.
pub open spec fn scan_columns(
    shape: Shape,
    origin: (u16, u16),
    radius: int,
    octant: u8,
    column: int,
    start: Slope,
    next: Slope,
    end: Slope,
) -> Seq<(u16, u16)>
    decreases radius + 1 - column, 0x20000int,
{
    if column < 1 || column > radius || radius > 0xffff {
        Seq::empty()
    } else {
        let row = scan_row(shape, origin, radius, octant, column, column, start, next, end, false);
        if row.occluded {
            row.cells
        } else {
            row.cells + scan_columns(
                shape,
                origin,
                radius,
                octant,
                column + 1,
                row.start,
                row.next,
                end,
            )
        }
    }
}

/// The scan of an octant from `column` on, through the window from `start`
/// down to `end`. A window whose start lies below its end is empty.
pub open spec fn scan_octant(
    shape: Shape,
    origin: (u16, u16),
    radius: int,
    octant: u8,
    column: int,
    start: Slope,
    end: Slope,
) -> Seq<(u16, u16)>
    decreases radius + 1 - column, 0x20001int,
{
    if start.less(end) {
        Seq::empty()
    } else {
        scan_columns(shape, origin, radius, octant, column, start, start, end)
    }
}

/// The scans of the octants from `octant` to the last.
pub open spec fn scan_octants(shape: Shape, origin: (u16, u16), radius: int, octant: u8) -> Seq<
    (u16, u16),
>
    decreases 8 - octant,
{
    if octant >= 8 {
        Seq::empty()
    } else {
        scan_octant(shape, origin, radius, octant, 1, Slope::one(), Slope::zero()) + scan_octants(
            shape,
            origin,
            radius,
            (octant + 1) as u8,
        )
    }
}

/// The field of view: the origin, then what each of the eight octants
/// shows, in the order of the octants.
pub open spec fn field_of_view(shape: Shape, origin: (u16, u16), radius: int) -> Seq<(u16, u16)> {
    seq![origin] + scan_octants(shape, origin, radius, 0)
}

impl Slope {
    /// Whether this slope is strictly less steep than `other`.
    pub fn below(&self, other: &Slope) -> (less: bool)
        requires
            self.wf(),
            other.wf(),
        ensures
            less == self.less(*other),
    {
        proof {
            lemma_product_fits(self.rise as int, other.run as int);
            lemma_product_fits(other.rise as int, self.run as int);
        }
        self.rise * other.run < other.rise * self.run
    }

    /// The slope through the far corner of the cell `(column, row)`.
    pub fn far_of(column: u32, row: u32) -> (slope: Slope)
        requires
            1 <= column <= 0xffff,
            row <= column,
        ensures
            slope == Slope::far(column as int, row as int),
            slope.wf(),
    {
        Slope { rise: 2 * (row as i64) + 1, run: 2 * (column as i64) - 1 }
    }

    /// The slope through the near corner of the cell `(column, row)`.
    pub fn near_of(column: u32, row: u32) -> (slope: Slope)
        requires
            1 <= column <= 0xffff,
            row <= column,
        ensures
            slope == Slope::near(column as int, row as int),
            slope.wf(),
    {
        Slope { rise: 2 * (row as i64) - 1, run: 2 * (column as i64) + 1 }
    }
}

/// The product of two parts of well-formed slopes fits in `i64`.
proof fn lemma_product_fits(a: int, b: int)
    requires
        -1 <= a <= SLOPE_LIMIT,
        0 < b <= SLOPE_LIMIT,
    ensures
        -SLOPE_LIMIT <= a * b <= SLOPE_LIMIT * SLOPE_LIMIT,
{
    assert(-SLOPE_LIMIT <= a * b <= SLOPE_LIMIT * SLOPE_LIMIT) by (nonlinear_arith)
        requires
            -1 <= a <= SLOPE_LIMIT,
            0 < b <= SLOPE_LIMIT,
    ;
}

/// The place of the cell `(column, row)` of an octant on the grid, or
/// `None` where a coordinate of it does not fit in `u16`.
pub fn transform(origin: (u16, u16), column: u32, row: u32, octant: u8) -> (place: Option<
    (u16, u16),
>)
    requires
        column <= 0xffff,
        row <= 0xffff,
    ensures
        place is Some <==> addressable(placed(origin, column as int, row as int, octant)),
        place is Some ==> (place.unwrap().0 as int, place.unwrap().1 as int) == placed(
            origin,
            column as int,
            row as int,
            octant,
        ),
{
    let mut dx: i32 = column as i32;
    let mut dy: i32 = row as i32;
    if octant & 1 != 0 {
        dx = row as i32;
        dy = column as i32;
    }
    if octant & 2 != 0 {
        dx = -dx;
    }
    if octant & 4 != 0 {
        dy = -dy;
    }
    let x: i32 = origin.0 as i32 + dx;
    let y: i32 = origin.1 as i32 + dy;
    if 0 <= x && x <= 0xffff && 0 <= y && y <= 0xffff {
        Some((x as u16, y as u16))
    } else {
        None
    }
}

/// Whether a cell on the border of an octant is left to the neighbouring
/// octant.
pub fn should_exclude(dx: u32, dy: u32, octant: u8) -> (left_out: bool)
    ensures
        left_out == excluded(dx as int, dy as int, octant),
{
    if octant == 0 || octant == 3 || octant == 5 || octant == 6 {
        dx == dy
    } else {
        dy == 0
    }
}

/// Whether the cell `(column, row)` lies within the radius.
fn within(column: u32, row: u32, radius: u32) -> (near: bool)
    requires
        column <= 0xffff,
        row <= 0xffff,
        radius <= 0xffff,
    ensures
        near == (column * column + row * row <= radius * radius),
{
    proof {
        lemma_square_fits(column as int);
        lemma_square_fits(row as int);
        lemma_square_fits(radius as int);
    }
    let c = column as u64;
    let r = row as u64;
    let limit = radius as u64;
    c * c + r * r <= limit * limit
}

proof fn lemma_square_fits(a: int)
    requires
        0 <= a <= 0xffff,
    ensures
        0 <= a * a <= 0xffff * 0xffff,
{
    assert(0 <= a * a <= 0xffff * 0xffff) by (nonlinear_arith)
        requires
            0 <= a <= 0xffff,
    ;
}

/// Appends the scan of an octant from `column` on, through the window from
/// `start` down to `end`.
pub fn cast_octant<M: GridMap>(
    map: &M,
    origin: (u16, u16),
    radius: u32,
    column: u32,
    start: Slope,
    end: Slope,
    octant: u8,
    out: &mut Vec<(u16, u16)>,
)
    requires
        radius <= 0xffff,
        1 <= column <= radius + 1,
        start.wf(),
        end.wf(),
    ensures
        final(out)@ == old(out)@ + scan_octant(
            shape_of(map),
            origin,
            radius as int,
            octant,
            column as int,
            start,
            end,
        ),
    decreases radius + 1 - column,
{
    if start.below(&end) {
        assert(out@ =~= old(out)@ + Seq::<(u16, u16)>::empty());
        return ;
    }
    let ghost shape = shape_of(map);
    let ghost whole = scan_columns(
        shape,
        origin,
        radius as int,
        octant,
        column as int,
        start,
        start,
        end,
    );
    let mut start = start;
    let mut next = start;
    let mut col = column;
    while col <= radius
        invariant_except_break
            out@ + scan_columns(shape, origin, radius as int, octant, col as int, start, next, end)
                == old(out)@ + whole,
        invariant
            radius <= 0xffff,
            1 <= column <= col <= radius + 1,
            start.wf(),
            next.wf(),
            end.wf(),
            shape == shape_of(map),
        ensures
            out@ == old(out)@ + whole,
        decreases radius + 1 - col,
    {
        let ghost column_start = out@;
        let ghost row_whole = scan_row(
            shape,
            origin,
            radius as int,
            octant,
            col as int,
            col as int,
            start,
            next,
            end,
            false,
        );
        let mut occluded = false;
        let mut row: i64 = col as i64;
        while row >= 0
            invariant_except_break
                out@ + scan_row(
                    shape,
                    origin,
                    radius as int,
                    octant,
                    col as int,
                    row as int,
                    start,
                    next,
                    end,
                    occluded,
                ).cells == column_start + row_whole.cells,
                scan_row(
                    shape,
                    origin,
                    radius as int,
                    octant,
                    col as int,
                    row as int,
                    start,
                    next,
                    end,
                    occluded,
                ).start == row_whole.start,
                scan_row(
                    shape,
                    origin,
                    radius as int,
                    octant,
                    col as int,
                    row as int,
                    start,
                    next,
                    end,
                    occluded,
                ).next == row_whole.next,
                scan_row(
                    shape,
                    origin,
                    radius as int,
                    octant,
                    col as int,
                    row as int,
                    start,
                    next,
                    end,
                    occluded,
                ).occluded == row_whole.occluded,
            invariant
                radius <= 0xffff,
                1 <= column <= col <= radius,
                -1 <= row <= col,
                start.wf(),
                next.wf(),
                end.wf(),
                shape == shape_of(map),
            ensures
                out@ == column_start + row_whole.cells,
                start == row_whole.start,
                next == row_whole.next,
                occluded == row_whole.occluded,
            decreases row + 1,
        {
            let far = Slope::far_of(col, row as u32);
            let near = Slope::near_of(col, row as u32);
            let ghost before = out@;
            let ghost scan = scan_row(
                shape,
                origin,
                radius as int,
                octant,
                col as int,
                row as int,
                start,
                next,
                end,
                occluded,
            );
            if far.below(&end) {
                assert(out@ =~= out@ + scan.cells);
                break ;
            }
            if !start.below(&near) {
                match transform(origin, col, row as u32, octant) {
                    Some(place) => {
                        if map.in_bounds(place.0, place.1) {
                            assert(shape.inside.contains(
                                placed(origin, col as int, row as int, octant),
                            ));
                            if within(col, row as u32, radius) && !should_exclude(
                                col,
                                row as u32,
                                octant,
                            ) {
                                out.push(place);
                            }
                            let ghost here = visit(
                                placed(origin, col as int, row as int, octant),
                                col as int,
                                row as int,
                                radius as int,
                                octant,
                            );
                            assert(out@ =~= before + here);
                            let wall = map.index(place).occludes();
                            assert(wall == shape.walls.contains(
                                placed(origin, col as int, row as int, octant),
                            ));
                            if occluded {
                                if wall {
                                    next = near;
                                } else {
                                    occluded = false;
                                    start = next;
                                }
                            } else if wall {
                                occluded = true;
                                next = near;
                                cast_octant(map, origin, radius, col + 1, start, far, octant, out);
                            }
                            let ghost rest = scan_row(
                                shape,
                                origin,
                                radius as int,
                                octant,
                                col as int,
                                row - 1,
                                start,
                                next,
                                end,
                                occluded,
                            );
                            assert(out@ + rest.cells =~= before + scan.cells);
                        } else {
                            assert(!shape.inside.contains(
                                placed(origin, col as int, row as int, octant),
                            ));
                        }
                    },
                    None => {
                        assert(!shape.inside.contains(
                            placed(origin, col as int, row as int, octant),
                        ));
                    },
                }
            }
            row = row - 1;
        }
        if occluded {
            break ;
        }
        col = col + 1;
    }
    assert(out@ =~= old(out)@ + whole);
}

/// The cells in view from `pos` within `radius`: `pos` itself, then what
/// each octant shows.
pub fn visible<M: GridMap>(map: &M, pos: (u16, u16), radius: u16) -> (cells: Vec<(u16, u16)>)
    ensures
        cells@ == field_of_view(shape_of(map), pos, radius as int),
{
    let mut cells: Vec<(u16, u16)> = Vec::new();
    cells.push(pos);
    let ghost shape = shape_of(map);
    let mut octant: u8 = 0;
    while octant < 8
        invariant
            octant <= 8,
            shape == shape_of(map),
            cells@ + scan_octants(shape, pos, radius as int, octant) == field_of_view(
                shape,
                pos,
                radius as int,
            ),
        decreases 8 - octant,
    {
        let ghost before = cells@;
        cast_octant(
            map,
            pos,
            radius as u32,
            1,
            Slope { rise: 1, run: 1 },
            Slope { rise: 0, run: 1 },
            octant,
            &mut cells,
        );
        assert(cells@ + scan_octants(shape, pos, radius as int, (octant + 1) as u8) =~= before
            + scan_octants(shape, pos, radius as int, octant));
        octant = octant + 1;
    }
    assert(cells@ =~= cells@ + scan_octants(shape, pos, radius as int, 8));
    cells
}

/// Whether a cell is on the grid and within the radius of the origin, by
/// Euclidean distance.
pub open spec fn in_sight<M: GridMap>(map: &M, origin: (u16, u16), radius: int, cell: (u16, u16)) -> bool {
    map.inside(cell.0, cell.1) && (cell.0 - origin.0) * (cell.0 - origin.0) + (cell.1 - origin.1)
        * (cell.1 - origin.1) <= radius * radius
}

/// Whether every cell of a list is on the grid and within the radius.
pub open spec fn all_in_sight<M: GridMap>(
    map: &M,
    origin: (u16, u16),
    radius: int,
    cells: Seq<(u16, u16)>,
) -> bool {
    forall|i: int| 0 <= i < cells.len() ==> in_sight(map, origin, radius, #[trigger] cells[i])
}

/// A cell of an octant is as far from the origin as its column and row
/// say, whichever way the octant is mirrored.
pub proof fn lemma_offset_distance(column: int, row: int, octant: u8)
    ensures
        offset(column, row, octant).0 * offset(column, row, octant).0 + offset(
            column,
            row,
            octant,
        ).1 * offset(column, row, octant).1 == column * column + row * row,
{
    assert((-column) * (-column) == column * column) by (nonlinear_arith);
    assert((-row) * (-row) == row * row) by (nonlinear_arith);
}

/// Every cell that the scan of an octant visits is on the grid and within
/// the radius.
pub proof fn lemma_octant_in_sight<M: GridMap>(
    map: &M,
    origin: (u16, u16),
    radius: int,
    octant: u8,
    column: int,
    start: Slope,
    end: Slope,
)
    ensures
        all_in_sight(
            map,
            origin,
            radius,
            scan_octant(shape_of(map), origin, radius, octant, column, start, end),
        ),
    decreases radius + 1 - column, 0x20001int,
{
    if !start.less(end) {
        lemma_columns_in_sight(map, origin, radius, octant, column, start, start, end);
    }
}

proof fn lemma_columns_in_sight<M: GridMap>(
    map: &M,
    origin: (u16, u16),
    radius: int,
    octant: u8,
    column: int,
    start: Slope,
    next: Slope,
    end: Slope,
)
    ensures
        all_in_sight(
            map,
            origin,
            radius,
            scan_columns(shape_of(map), origin, radius, octant, column, start, next, end),
        ),
    decreases radius + 1 - column, 0x20000int,
{
    let shape = shape_of(map);
    if !(column < 1 || column > radius || radius > 0xffff) {
        lemma_row_in_sight(map, origin, radius, octant, column, column, start, next, end, false);
        let row = scan_row(shape, origin, radius, octant, column, column, start, next, end, false);
        if !row.occluded {
            lemma_columns_in_sight(map, origin, radius, octant, column + 1, row.start, row.next, end);
        }
    }
}

proof fn lemma_row_in_sight<M: GridMap>(
    map: &M,
    origin: (u16, u16),
    radius: int,
    octant: u8,
    column: int,
    row: int,
    start: Slope,
    next: Slope,
    end: Slope,
    occluded: bool,
)
    ensures
        all_in_sight(
            map,
            origin,
            radius,
            scan_row(
                shape_of(map),
                origin,
                radius,
                octant,
                column,
                row,
                start,
                next,
                end,
                occluded,
            ).cells,
        ),
    decreases radius + 1 - column, row + 1,
{
    let shape = shape_of(map);
    if row < 0 || column < 1 || column > radius || radius > 0xffff || row > column {
    } else if Slope::far(column, row).less(end) {
    } else if start.less(Slope::near(column, row)) {
        lemma_row_in_sight(map, origin, radius, octant, column, row - 1, start, next, end, occluded);
    } else if !shape.inside.contains(placed(origin, column, row, octant)) {
        lemma_row_in_sight(map, origin, radius, octant, column, row - 1, start, next, end, occluded);
    } else {
        let near = Slope::near(column, row);
        let place = placed(origin, column, row, octant);
        lemma_offset_distance(column, row, octant);
        if shape.walls.contains(place) {
            lemma_row_in_sight(map, origin, radius, octant, column, row - 1, start, near, end, true);
            if !occluded {
                lemma_octant_in_sight(
                    map,
                    origin,
                    radius,
                    octant,
                    column + 1,
                    start,
                    Slope::far(column, row),
                );
            }
        } else if occluded {
            lemma_row_in_sight(map, origin, radius, octant, column, row - 1, next, next, end, false);
        } else {
            lemma_row_in_sight(map, origin, radius, octant, column, row - 1, start, next, end, false);
        }
    }
}

proof fn lemma_octants_in_sight<M: GridMap>(map: &M, origin: (u16, u16), radius: int, octant: u8)
    ensures
        all_in_sight(map, origin, radius, scan_octants(shape_of(map), origin, radius, octant)),
    decreases 8 - octant,
{
    if octant < 8 {
        lemma_octant_in_sight(map, origin, radius, octant, 1, Slope::one(), Slope::zero());
        lemma_octants_in_sight(map, origin, radius, (octant + 1) as u8);
    }
}

/// A field of view begins with its origin, and every cell after the
/// origin is on the grid and within the radius.
pub proof fn lemma_field_of_view<M: GridMap>(map: &M, origin: (u16, u16), radius: int)
    ensures
        field_of_view(shape_of(map), origin, radius).len() >= 1,
        field_of_view(shape_of(map), origin, radius)[0] == origin,
        forall|i: int|
            1 <= i < field_of_view(shape_of(map), origin, radius).len() ==> in_sight(
                map,
                origin,
                radius,
                #[trigger] field_of_view(shape_of(map), origin, radius)[i],
            ),
{
    lemma_octants_in_sight(map, origin, radius, 0);
    let rest = scan_octants(shape_of(map), origin, radius, 0);
    let view = field_of_view(shape_of(map), origin, radius);
    assert forall|i: int| 1 <= i < view.len() implies in_sight(
        map,
        origin,
        radius,
        #[trigger] view[i],
    ) by {
        assert(view[i] == rest[i - 1]);
    }
}

/// With a radius of zero, nothing but the origin is in view.
pub proof fn lemma_radius_zero(shape: Shape, origin: (u16, u16))
    ensures
        field_of_view(shape, origin, 0) == seq![origin],
{
    reveal_with_fuel(scan_octants, 9);
    assert(field_of_view(shape, origin, 0) =~= seq![origin]);
}

/// Whether visiting `cells` makes a call of number `index`, counted from
/// zero.
pub open spec fn is_call(cells: Seq<(u16, u16)>, index: int) -> bool {
    0 <= index < cells.len()
}

/// Calls `f` on every cell in view from `pos` within `radius`, after `pos`
/// itself, in the order of the field of view. What is in view is settled
/// by the grid as it is when the cast begins. A call that fails is passed
/// over: the cells after it are visited all the same.
///
/// The contract follows the grid through the calls: `trail` holds the grid
/// before the first call, between any two, and after the last.
pub fn cast<M: GridMap, E, F: FnMut(&mut M, (u16, u16)) -> Result<(), E>>(
    map: &mut M,
    pos: (u16, u16),
    radius: u16,
    mut f: F,
)
    requires
        forall|m: &mut M, p: (u16, u16)|
            field_of_view(shape_of(old(map)), pos, radius as int).contains(p)
                ==> #[trigger] f.requires((m, p)),
    ensures
        exists|trail: Seq<M>|
            {
                let cells = field_of_view(shape_of(old(map)), pos, radius as int);
                &&& #[trigger] trail.len() == cells.len() + 1
                &&& trail[0] == *old(map)
                &&& trail[cells.len() as int] == *final(map)
                &&& forall|i: int| #[trigger]
                    is_call(cells, i) ==> exists|m: &mut M, outcome: Result<(), E>|
                        *m == trail[i] && *final(m) == trail[i + 1] && #[trigger] f.ensures(
                            (m, cells[i]),
                            outcome,
                        )
            },
{
    let cells = visible(&*map, pos, radius);
    let ghost callee = f;
    let ghost mut trail: Seq<M> = seq![*map];
    let mut done: usize = 0;
    while done < cells.len()
        invariant
            done <= cells@.len(),
            f == callee,
            cells@ == field_of_view(shape_of(old(map)), pos, radius as int),
            trail.len() == done + 1,
            trail[0] == *old(map),
            trail[done as int] == *map,
            forall|m: &mut M, p: (u16, u16)| cells@.contains(p) ==> #[trigger] f.requires((m, p)),
            forall|i: int| #[trigger]
                is_call(cells@, i) && i < done ==> exists|m: &mut M, outcome: Result<(), E>|
                    *m == trail[i] && *final(m) == trail[i + 1] && #[trigger] f.ensures(
                        (m, cells@[i]),
                        outcome,
                    ),
        decreases cells@.len() - done,
    {
        let ghost before = *map;
        let ghost settled = trail;
        let cell = cells[done];
        assert(cells@.contains(cell));
        // A failure of the callback is dropped on purpose: one bad cell
        // must not keep the rest of the view from being visited.
        let _ = f(map, cell);
        proof {
            assert(exists|m: &mut M, outcome: Result<(), E>|
                *m == before && *final(m) == *map && #[trigger] f.ensures((m, cell), outcome));
            trail = trail.push(*map);
            assert forall|i: int| #[trigger] is_call(cells@, i) && i < done + 1 implies exists|
                m: &mut M,
                outcome: Result<(), E>,
            |
                *m == trail[i] && *final(m) == trail[i + 1] && #[trigger] f.ensures(
                    (m, cells@[i]),
                    outcome,
                ) by {
                if i < done {
                    assert(trail[i] == settled[i] && trail[i + 1] == settled[i + 1]);
                }
            }
        }
        done = done + 1;
    }
    assert({
        &&& trail.len() == cells@.len() + 1
        &&& trail[0] == *old(map)
        &&& trail[cells@.len() as int] == *map
        &&& forall|i: int| #[trigger]
            is_call(cells@, i) ==> exists|m: &mut M, outcome: Result<(), E>|
                *m == trail[i] && *final(m) == trail[i + 1] && #[trigger] f.ensures(
                    (m, cells@[i]),
                    outcome,
                )
    });
}

} // verus!
