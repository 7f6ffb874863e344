//! What the octants show between them.
//!
//! Every cell that an octant shows lies in that octant, so that no two
//! octants show the same cell. Where nothing occludes, the window of every
//! octant stays as wide as it began, and the octants show the whole disc
//! around the origin: every cell of the grid within the radius, and none of
//! them twice. And an occluder next to the origin on an axis hides the axis
//! behind it.

use crate::shadow::addressable;
use crate::shadow::excluded;
use crate::shadow::field_of_view;
use crate::shadow::in_sight;
use crate::shadow::offset;
use crate::shadow::placed;
use crate::shadow::scan_columns;
use crate::shadow::scan_octant;
use crate::shadow::scan_octants;
use crate::shadow::scan_row;
use crate::shadow::shape_of;
use crate::shadow::visits;
use crate::shadow::GridMap;
use crate::shadow::Shape;
use crate::shadow::Slope;
use vstd::prelude::*;
use vstd::seq_lib::lemma_no_dup_in_concat;

verus! {

/// Whether no cell of the grid occludes.
pub open spec fn is_open<M: GridMap>(map: &M) -> bool {
    forall|x: u16, y: u16| map.inside(x, y) ==> !#[trigger] map.occluded(x, y)
}

/// The absolute value.
pub open spec fn abs(a: int) -> int {
    if a < 0 {
        -a
    } else {
        a
    }
}

/// The step from the origin to a cell.
pub open spec fn step(origin: (u16, u16), cell: (u16, u16)) -> (int, int) {
    (cell.0 - origin.0, cell.1 - origin.1)
}

/// The column of an octant in which a step from the origin ends.
pub open spec fn column_of(octant: u8, d: (int, int)) -> int {
    if octant & 1 != 0 {
        abs(d.1)
    } else {
        abs(d.0)
    }
}

/// The row of an octant in which a step from the origin ends.
pub open spec fn row_of(octant: u8, d: (int, int)) -> int {
    if octant & 1 != 0 {
        abs(d.0)
    } else {
        abs(d.1)
    }
}

/// Whether a step from the origin ends in an octant, on a cell that the
/// octant does not leave to its neighbour.
pub open spec fn sector(octant: u8, d: (int, int)) -> bool {
    &&& column_of(octant, d) >= 1
    &&& row_of(octant, d) <= column_of(octant, d)
    &&& !excluded(column_of(octant, d), row_of(octant, d), octant)
    &&& offset(column_of(octant, d), row_of(octant, d), octant) == d
}

/// The octant in which a step from the origin ends.
pub open spec fn sector_of(d: (int, int)) -> u8 {
    if d.0 > 0 && 0 <= d.1 < d.0 {
        0
    } else if d.0 >= 1 && d.1 >= d.0 {
        1
    } else if d.0 < 0 && 1 <= d.1 <= -d.0 {
        2
    } else if d.1 > 0 && -d.1 < d.0 <= 0 {
        3
    } else if d.0 > 0 && -d.0 <= d.1 <= -1 {
        4
    } else if d.1 < 0 && 0 <= d.0 < -d.1 {
        5
    } else if d.0 < 0 && d.0 < d.1 <= 0 {
        6
    } else {
        7
    }
}

/// The bits of an octant.
proof fn lemma_bits(octant: u8)
    by (bit_vector)
    requires
        octant < 8,
    ensures
        (octant & 1 != 0) == (octant == 1 || octant == 3 || octant == 5 || octant == 7),
        (octant & 2 != 0) == (octant == 2 || octant == 3 || octant == 6 || octant == 7),
        (octant & 4 != 0) == (octant >= 4),
{
}

/// Every step but the one that stays at the origin ends in exactly one
/// octant.
pub proof fn lemma_sectors(octant: u8, d: (int, int))
    requires
        octant < 8,
    ensures
        sector(octant, d) <==> d != (0int, 0int) && sector_of(d) == octant,
        sector_of(d) < 8,
{
    lemma_bits(octant);
}

/// A cell of an octant is found again from the step that leads to it.
pub proof fn lemma_placed_back(column: int, row: int, octant: u8)
    requires
        octant < 8,
        column >= 1,
        0 <= row <= column,
    ensures
        column_of(octant, offset(column, row, octant)) == column,
        row_of(octant, offset(column, row, octant)) == row,
        !excluded(column, row, octant) ==> sector(octant, offset(column, row, octant)),
{
    lemma_bits(octant);
}

/// A window from the diagonal down to the axis holds every cell of an
/// octant.
proof fn lemma_wide_window(column: int, row: int)
    requires
        1 <= column <= 0xffff,
        0 <= row <= column,
    ensures
        !Slope::far(column, row).less(Slope::zero()),
        !Slope::one().less(Slope::near(column, row)),
{
    let far = Slope::far(column, row);
    let near = Slope::near(column, row);
    assert(far.rise == 2 * row + 1 && far.run == 2 * column - 1);
    assert(near.rise == 2 * row - 1 && near.run == 2 * column + 1);
    assert(far.rise * 1 >= 0 * far.run);
    assert(1 * near.run >= near.rise * 1);
}

/// The cell of an octant as the scan reports it.
pub open spec fn cell_at(origin: (u16, u16), column: int, row: int, octant: u8) -> (u16, u16) {
    (placed(origin, column, row, octant).0 as u16, placed(origin, column, row, octant).1 as u16)
}

/// Whether the scan of open ground visits the cell `(column, row)` of an
/// octant: the cell is on the grid and within the radius, and the octant
/// does not leave it to its neighbour.
pub open spec fn shown(
    shape: Shape,
    origin: (u16, u16),
    radius: int,
    octant: u8,
    column: int,
    row: int,
) -> bool {
    shape.inside.contains(placed(origin, column, row, octant)) && visits(column, row, radius, octant)
}

/// Whether every cell of a list lies in the given octant, in a column from
/// `column` on, in a row up to `row` where it is in column `column`, and
/// is one that the scan of open ground visits.
pub open spec fn all_shown(
    cells: Seq<(u16, u16)>,
    shape: Shape,
    origin: (u16, u16),
    radius: int,
    octant: u8,
    column: int,
    row: int,
) -> bool {
    forall|i: int|
        0 <= i < cells.len() ==> {
            let d = step(origin, #[trigger] cells[i]);
            &&& sector(octant, d)
            &&& column <= column_of(octant, d) <= radius
            &&& column_of(octant, d) == column ==> row_of(octant, d) <= row
            &&& shown(shape, origin, radius, octant, column_of(octant, d), row_of(octant, d))
        }
}

/// On open ground the scan of a column keeps its window, visits every cell
/// of the column that is on the grid and within the radius, and none
/// twice.
pub proof fn lemma_open_row(
    shape: Shape,
    origin: (u16, u16),
    radius: int,
    octant: u8,
    column: int,
    row: int,
)
    requires
        octant < 8,
        shape.walls == Set::<(int, int)>::empty(),
        forall|p: (int, int)| shape.inside.contains(p) ==> addressable(p),
        1 <= column <= radius <= 0xffff,
        -1 <= row <= column,
    ensures
        ({
            let scan = scan_row(
                shape,
                origin,
                radius,
                octant,
                column,
                row,
                Slope::one(),
                Slope::one(),
                Slope::zero(),
                false,
            );
            &&& scan.start == Slope::one()
            &&& scan.next == Slope::one()
            &&& !scan.occluded
            &&& scan.cells.no_duplicates()
            &&& all_shown(scan.cells, shape, origin, radius, octant, column, row)
            &&& forall|below: int|
                0 <= below <= row && shown(shape, origin, radius, octant, column, below)
                    ==> scan.cells.contains(#[trigger] cell_at(origin, column, below, octant))
        }),
    decreases row + 1,
{
    let scan = scan_row(
        shape,
        origin,
        radius,
        octant,
        column,
        row,
        Slope::one(),
        Slope::one(),
        Slope::zero(),
        false,
    );
    if row >= 0 {
        lemma_open_row(shape, origin, radius, octant, column, row - 1);
        let rest = scan_row(
            shape,
            origin,
            radius,
            octant,
            column,
            row - 1,
            Slope::one(),
            Slope::one(),
            Slope::zero(),
            false,
        );
        lemma_wide_window(column, row);
        lemma_placed_back(column, row, octant);
        let place = placed(origin, column, row, octant);
        let here = cell_at(origin, column, row, octant);
        if shown(shape, origin, radius, octant, column, row) {
            assert(scan.cells =~= seq![here] + rest.cells);
            assert(addressable(place));
            assert(step(origin, here) == offset(column, row, octant));
            assert forall|j: int| 0 <= j < rest.cells.len() implies here != rest.cells[j] by {
                let d = step(origin, rest.cells[j]);
                assert(column_of(octant, d) == column ==> row_of(octant, d) <= row - 1);
            }
            lemma_no_dup_in_concat(seq![here], rest.cells);
            assert forall|i: int| 0 <= i < scan.cells.len() implies {
                let d = step(origin, #[trigger] scan.cells[i]);
                &&& sector(octant, d)
                &&& column <= column_of(octant, d) <= radius
                &&& column_of(octant, d) == column ==> row_of(octant, d) <= row
                &&& shown(shape, origin, radius, octant, column_of(octant, d), row_of(octant, d))
            } by {
                if i > 0 {
                    assert(scan.cells[i] == rest.cells[i - 1]);
                }
            }
            assert forall|below: int|
                0 <= below <= row && shown(
                    shape,
                    origin,
                    radius,
                    octant,
                    column,
                    below,
                ) implies scan.cells.contains(#[trigger] cell_at(origin, column, below, octant)) by {
                if below == row {
                    assert(scan.cells[0] == here);
                } else {
                    let found = choose|j: int|
                        0 <= j < rest.cells.len() && rest.cells[j] == cell_at(
                            origin,
                            column,
                            below,
                            octant,
                        );
                    assert(scan.cells[found + 1] == rest.cells[found]);
                }
            }
        } else {
            assert(scan.cells =~= rest.cells);
        }
    } else {
        assert(scan.cells =~= Seq::<(u16, u16)>::empty());
    }
}

/// On open ground the scan of the columns from `column` on visits every
/// cell of those columns that is on the grid and within the radius, and
/// none twice.
pub proof fn lemma_open_columns(
    shape: Shape,
    origin: (u16, u16),
    radius: int,
    octant: u8,
    column: int,
)
    requires
        octant < 8,
        shape.walls == Set::<(int, int)>::empty(),
        forall|p: (int, int)| shape.inside.contains(p) ==> addressable(p),
        1 <= column <= radius + 1,
        radius <= 0xffff,
    ensures
        ({
            let cells = scan_columns(
                shape,
                origin,
                radius,
                octant,
                column,
                Slope::one(),
                Slope::one(),
                Slope::zero(),
            );
            &&& cells.no_duplicates()
            &&& all_shown(cells, shape, origin, radius, octant, column, column)
            &&& forall|beyond: int, row: int|
                column <= beyond <= radius && 0 <= row <= beyond && shown(
                    shape,
                    origin,
                    radius,
                    octant,
                    beyond,
                    row,
                ) ==> cells.contains(#[trigger] cell_at(origin, beyond, row, octant))
        }),
    decreases radius + 1 - column,
{
    let cells = scan_columns(
        shape,
        origin,
        radius,
        octant,
        column,
        Slope::one(),
        Slope::one(),
        Slope::zero(),
    );
    if column <= radius {
        lemma_open_row(shape, origin, radius, octant, column, column);
        lemma_open_columns(shape, origin, radius, octant, column + 1);
        let first = scan_row(
            shape,
            origin,
            radius,
            octant,
            column,
            column,
            Slope::one(),
            Slope::one(),
            Slope::zero(),
            false,
        ).cells;
        let rest = scan_columns(
            shape,
            origin,
            radius,
            octant,
            column + 1,
            Slope::one(),
            Slope::one(),
            Slope::zero(),
        );
        assert(cells =~= first + rest);
        assert forall|i: int, j: int| 0 <= i < first.len() && 0 <= j < rest.len() implies first[i]
            != rest[j] by {
            let d = step(origin, first[i]);
            let e = step(origin, rest[j]);
            assert(column_of(octant, e) >= column + 1);
            assert(column_of(octant, d) <= column) by {
                lemma_first_column(first, shape, origin, radius, octant, column, i);
            }
        }
        lemma_no_dup_in_concat(first, rest);
        assert forall|i: int| 0 <= i < cells.len() implies {
            let d = step(origin, #[trigger] cells[i]);
            &&& sector(octant, d)
            &&& column <= column_of(octant, d) <= radius
            &&& column_of(octant, d) == column ==> row_of(octant, d) <= column
            &&& shown(shape, origin, radius, octant, column_of(octant, d), row_of(octant, d))
        } by {
            if i < first.len() {
                assert(cells[i] == first[i]);
            } else {
                assert(cells[i] == rest[i - first.len()]);
            }
        }
        assert forall|beyond: int, row: int|
            column <= beyond <= radius && 0 <= row <= beyond && shown(
                shape,
                origin,
                radius,
                octant,
                beyond,
                row,
            ) implies cells.contains(#[trigger] cell_at(origin, beyond, row, octant)) by {
            let wanted = cell_at(origin, beyond, row, octant);
            if beyond == column {
                let found = choose|j: int| 0 <= j < first.len() && first[j] == wanted;
                assert(cells[found] == first[found]);
            } else {
                let found = choose|j: int| 0 <= j < rest.len() && rest[j] == wanted;
                assert(cells[first.len() + found] == rest[found]);
            }
        }
    } else {
        assert(cells =~= Seq::<(u16, u16)>::empty());
    }
}

/// The cells that the scan of a column visits lie in that column.
proof fn lemma_first_column(
    first: Seq<(u16, u16)>,
    shape: Shape,
    origin: (u16, u16),
    radius: int,
    octant: u8,
    column: int,
    i: int,
)
    requires
        octant < 8,
        0 <= i < first.len(),
        1 <= column <= radius <= 0xffff,
        shape.walls == Set::<(int, int)>::empty(),
        forall|p: (int, int)| shape.inside.contains(p) ==> addressable(p),
        first == scan_row(
            shape,
            origin,
            radius,
            octant,
            column,
            column,
            Slope::one(),
            Slope::one(),
            Slope::zero(),
            false,
        ).cells,
    ensures
        column_of(octant, step(origin, first[i])) == column,
{
    lemma_row_in_column(shape, origin, radius, octant, column, column, i);
}

/// The cells that the scan of a column visits lie in that column.
proof fn lemma_row_in_column(
    shape: Shape,
    origin: (u16, u16),
    radius: int,
    octant: u8,
    column: int,
    row: int,
    i: int,
)
    requires
        octant < 8,
        1 <= column <= radius <= 0xffff,
        -1 <= row <= column,
        shape.walls == Set::<(int, int)>::empty(),
        forall|p: (int, int)| shape.inside.contains(p) ==> addressable(p),
        0 <= i < scan_row(
            shape,
            origin,
            radius,
            octant,
            column,
            row,
            Slope::one(),
            Slope::one(),
            Slope::zero(),
            false,
        ).cells.len(),
    ensures
        column_of(
            octant,
            step(
                origin,
                scan_row(
                    shape,
                    origin,
                    radius,
                    octant,
                    column,
                    row,
                    Slope::one(),
                    Slope::one(),
                    Slope::zero(),
                    false,
                ).cells[i],
            ),
        ) == column,
    decreases row + 1,
{
    let scan = scan_row(
        shape,
        origin,
        radius,
        octant,
        column,
        row,
        Slope::one(),
        Slope::one(),
        Slope::zero(),
        false,
    );
    if row >= 0 {
        let rest = scan_row(
            shape,
            origin,
            radius,
            octant,
            column,
            row - 1,
            Slope::one(),
            Slope::one(),
            Slope::zero(),
            false,
        );
        lemma_wide_window(column, row);
        lemma_placed_back(column, row, octant);
        let here = cell_at(origin, column, row, octant);
        if shown(shape, origin, radius, octant, column, row) {
            assert(scan.cells =~= seq![here] + rest.cells);
            if i > 0 {
                assert(scan.cells[i] == rest.cells[i - 1]);
                lemma_row_in_column(shape, origin, radius, octant, column, row - 1, i - 1);
            } else {
                assert(addressable(placed(origin, column, row, octant)));
                assert(step(origin, here) == offset(column, row, octant));
            }
        } else {
            assert(scan.cells =~= rest.cells);
            lemma_row_in_column(shape, origin, radius, octant, column, row - 1, i);
        }
    }
}

/// Whether every cell of a list lies in the given octant, in a column from
/// `column` on.
pub open spec fn all_in_octant(
    cells: Seq<(u16, u16)>,
    origin: (u16, u16),
    octant: u8,
    column: int,
) -> bool {
    forall|i: int|
        0 <= i < cells.len() ==> sector(octant, step(origin, #[trigger] cells[i])) && column_of(
            octant,
            step(origin, cells[i]),
        ) >= column
}

/// Whether every cell of a list lies off the axis of the octant.
pub open spec fn all_off_axis(cells: Seq<(u16, u16)>, origin: (u16, u16), octant: u8) -> bool {
    forall|i: int| 0 <= i < cells.len() ==> row_of(octant, step(origin, #[trigger] cells[i])) >= 1
}

/// Whether the end of a window lies above the axis cells of the columns
/// from `column` on, so that none of them is in view.
pub open spec fn clears_axis(end: Slope, column: int) -> bool {
    end.run > 0 && end.rise * (2 * column - 1) > end.run
}

/// Every cell that the scan of an octant visits lies in that octant, and in
/// a column from the first one scanned on. Where the end of the window
/// clears the axis, every cell lies off the axis as well.
pub proof fn lemma_octant_cells(
    shape: Shape,
    origin: (u16, u16),
    radius: int,
    octant: u8,
    column: int,
    start: Slope,
    end: Slope,
)
    requires
        octant < 8,
        column >= 1,
        forall|p: (int, int)| shape.inside.contains(p) ==> addressable(p),
    ensures
        all_in_octant(
            scan_octant(shape, origin, radius, octant, column, start, end),
            origin,
            octant,
            column,
        ),
        clears_axis(end, column) ==> all_off_axis(
            scan_octant(shape, origin, radius, octant, column, start, end),
            origin,
            octant,
        ),
    decreases radius + 1 - column, 0x20001int,
{
    if !start.less(end) {
        lemma_columns_cells(shape, origin, radius, octant, column, start, start, end);
    }
}

proof fn lemma_columns_cells(
    shape: Shape,
    origin: (u16, u16),
    radius: int,
    octant: u8,
    column: int,
    start: Slope,
    next: Slope,
    end: Slope,
)
    requires
        octant < 8,
        column >= 1,
        forall|p: (int, int)| shape.inside.contains(p) ==> addressable(p),
    ensures
        all_in_octant(
            scan_columns(shape, origin, radius, octant, column, start, next, end),
            origin,
            octant,
            column,
        ),
        clears_axis(end, column) ==> all_off_axis(
            scan_columns(shape, origin, radius, octant, column, start, next, end),
            origin,
            octant,
        ),
    decreases radius + 1 - column, 0x20000int,
{
    let cells = scan_columns(shape, origin, radius, octant, column, start, next, end);
    if !(column < 1 || column > radius || radius > 0xffff) {
        lemma_row_cells(shape, origin, radius, octant, column, column, start, next, end, false);
        let row = scan_row(shape, origin, radius, octant, column, column, start, next, end, false);
        if !row.occluded {
            lemma_columns_cells(shape, origin, radius, octant, column + 1, row.start, row.next, end);
            let rest = scan_columns(
                shape,
                origin,
                radius,
                octant,
                column + 1,
                row.start,
                row.next,
                end,
            );
            if clears_axis(end, column) {
                lemma_clears_on(end, column, column + 1);
            }
            assert forall|i: int| 0 <= i < cells.len() implies sector(
                octant,
                step(origin, #[trigger] cells[i]),
            ) && column_of(octant, step(origin, cells[i])) >= column && (clears_axis(end, column)
                ==> row_of(octant, step(origin, cells[i])) >= 1) by {
                if i < row.cells.len() {
                    assert(cells[i] == row.cells[i]);
                } else {
                    assert(cells[i] == rest[i - row.cells.len()]);
                }
            }
        }
    }
}

/// A window that clears the axis from one column on clears it from every
/// later column on.
proof fn lemma_clears_on(end: Slope, column: int, later: int)
    requires
        clears_axis(end, column),
        1 <= column <= later,
    ensures
        clears_axis(end, later),
{
    let rise = end.rise as int;
    let run = end.run as int;
    assert(rise * (2 * later - 1) > run) by (nonlinear_arith)
        requires
            run > 0,
            rise * (2 * column - 1) > run,
            1 <= column <= later,
    ;
}

/// The far slope of a cell off the axis clears the axis from the next
/// column on, and so does the far slope of the axis cell of the first
/// column.
proof fn lemma_far_clears(column: int, row: int)
    requires
        1 <= column <= 0xffff,
        0 <= row <= column,
        row >= 1 || column == 1,
    ensures
        clears_axis(Slope::far(column, row), column + 1),
{
    assert((2 * row + 1) * (2 * (column + 1) - 1) > 2 * column - 1) by (nonlinear_arith)
        requires
            1 <= column,
            0 <= row,
            row >= 1 || column == 1,
    ;
}

proof fn lemma_row_cells(
    shape: Shape,
    origin: (u16, u16),
    radius: int,
    octant: u8,
    column: int,
    row: int,
    start: Slope,
    next: Slope,
    end: Slope,
    occluded: bool,
)
    requires
        octant < 8,
        column >= 1,
        forall|p: (int, int)| shape.inside.contains(p) ==> addressable(p),
    ensures
        all_in_octant(
            scan_row(shape, origin, radius, octant, column, row, start, next, end, occluded).cells,
            origin,
            octant,
            column,
        ),
        clears_axis(end, column) ==> all_off_axis(
            scan_row(shape, origin, radius, octant, column, row, start, next, end, occluded).cells,
            origin,
            octant,
        ),
    decreases radius + 1 - column, row + 1,
{
    let scan = scan_row(shape, origin, radius, octant, column, row, start, next, end, occluded);
    if row < 0 || column < 1 || column > radius || radius > 0xffff || row > column {
    } else if Slope::far(column, row).less(end) {
    } else if start.less(Slope::near(column, row)) {
        lemma_row_cells(shape, origin, radius, octant, column, row - 1, start, next, end, occluded);
    } else if !shape.inside.contains(placed(origin, column, row, octant)) {
        lemma_row_cells(shape, origin, radius, octant, column, row - 1, start, next, end, occluded);
    } else {
        let near = Slope::near(column, row);
        let place = placed(origin, column, row, octant);
        let here = crate::shadow::visit(place, column, row, radius, octant);
        lemma_placed_back(column, row, octant);
        assert(addressable(place));
        if clears_axis(end, column) {
            // The axis cell of this column is out of view, so this is not it.
            assert(row >= 1) by {
                if row == 0 {
                    let far = Slope::far(column, 0);
                    assert(far.rise == 1 && far.run == 2 * column - 1);
                    assert(far.rise * end.run < end.rise * far.run) by (nonlinear_arith)
                        requires
                            far.rise == 1,
                            far.run == 2 * column - 1,
                            end.rise * (2 * column - 1) > end.run,
                    ;
                }
            }
        }
        assert forall|i: int| 0 <= i < here.len() implies sector(
            octant,
            step(origin, #[trigger] here[i]),
        ) && column_of(octant, step(origin, here[i])) >= column && row_of(
            octant,
            step(origin, here[i]),
        ) == row by {
            assert(step(origin, here[i]) == offset(column, row, octant));
        }
        if shape.walls.contains(place) {
            lemma_row_cells(shape, origin, radius, octant, column, row - 1, start, near, end, true);
            let rest = scan_row(
                shape,
                origin,
                radius,
                octant,
                column,
                row - 1,
                start,
                near,
                end,
                true,
            );
            if occluded {
                assert(scan.cells =~= here + rest.cells);
                lemma_joined(here, rest.cells, origin, octant, column, clears_axis(end, column));
            } else {
                let far = Slope::far(column, row);
                lemma_octant_cells(shape, origin, radius, octant, column + 1, start, far);
                let deeper = scan_octant(shape, origin, radius, octant, column + 1, start, far);
                if row >= 1 {
                    lemma_far_clears(column, row);
                }
                assert(scan.cells =~= (here + deeper) + rest.cells);
                lemma_joined(here, deeper, origin, octant, column, clears_axis(end, column));
                lemma_joined(
                    here + deeper,
                    rest.cells,
                    origin,
                    octant,
                    column,
                    clears_axis(end, column),
                );
            }
        } else if occluded {
            lemma_row_cells(shape, origin, radius, octant, column, row - 1, next, next, end, false);
            let rest = scan_row(
                shape,
                origin,
                radius,
                octant,
                column,
                row - 1,
                next,
                next,
                end,
                false,
            );
            assert(scan.cells =~= here + rest.cells);
            lemma_joined(here, rest.cells, origin, octant, column, clears_axis(end, column));
        } else {
            lemma_row_cells(shape, origin, radius, octant, column, row - 1, start, next, end, false);
            let rest = scan_row(
                shape,
                origin,
                radius,
                octant,
                column,
                row - 1,
                start,
                next,
                end,
                false,
            );
            assert(scan.cells =~= here + rest.cells);
            lemma_joined(here, rest.cells, origin, octant, column, clears_axis(end, column));
        }
    }
}

/// Two lists of cells of an octant, joined, are a list of cells of that
/// octant.
proof fn lemma_joined(
    first: Seq<(u16, u16)>,
    second: Seq<(u16, u16)>,
    origin: (u16, u16),
    octant: u8,
    column: int,
    off_axis: bool,
)
    requires
        forall|i: int|
            0 <= i < first.len() ==> sector(octant, step(origin, #[trigger] first[i])) && column_of(
                octant,
                step(origin, first[i]),
            ) >= column && (off_axis ==> row_of(octant, step(origin, first[i])) >= 1),
        forall|i: int|
            0 <= i < second.len() ==> sector(octant, step(origin, #[trigger] second[i]))
                && column_of(octant, step(origin, second[i])) >= column && (off_axis ==> row_of(
                octant,
                step(origin, second[i]),
            ) >= 1),
    ensures
        forall|i: int|
            0 <= i < (first + second).len() ==> sector(
                octant,
                step(origin, #[trigger] (first + second)[i]),
            ) && column_of(octant, step(origin, (first + second)[i])) >= column && (off_axis
                ==> row_of(octant, step(origin, (first + second)[i])) >= 1),
{
    assert forall|i: int| 0 <= i < (first + second).len() implies sector(
        octant,
        step(origin, #[trigger] (first + second)[i]),
    ) && column_of(octant, step(origin, (first + second)[i])) >= column && (off_axis ==> row_of(
        octant,
        step(origin, (first + second)[i]),
    ) >= 1) by {
        if i < first.len() {
            assert((first + second)[i] == first[i]);
        } else {
            assert((first + second)[i] == second[i - first.len()]);
        }
    }
}

/// No two octants show the same cell, whatever the grid holds: the cells on
/// the border of two octants are left to one of them.
pub proof fn lemma_octants_apart<M: GridMap>(
    map: &M,
    origin: (u16, u16),
    radius: int,
    one: u8,
    other: u8,
)
    requires
        one < 8,
        other < 8,
        one != other,
    ensures
        forall|i: int, j: int|
            0 <= i < scan_octant(
                shape_of(map),
                origin,
                radius,
                one,
                1,
                Slope::one(),
                Slope::zero(),
            ).len() && 0 <= j < scan_octant(
                shape_of(map),
                origin,
                radius,
                other,
                1,
                Slope::one(),
                Slope::zero(),
            ).len() ==> #[trigger] scan_octant(
                shape_of(map),
                origin,
                radius,
                one,
                1,
                Slope::one(),
                Slope::zero(),
            )[i] != #[trigger] scan_octant(
                shape_of(map),
                origin,
                radius,
                other,
                1,
                Slope::one(),
                Slope::zero(),
            )[j],
{
    let shape = shape_of(map);
    let first = scan_octant(shape, origin, radius, one, 1, Slope::one(), Slope::zero());
    let second = scan_octant(shape, origin, radius, other, 1, Slope::one(), Slope::zero());
    lemma_octant_cells(shape, origin, radius, one, 1, Slope::one(), Slope::zero());
    lemma_octant_cells(shape, origin, radius, other, 1, Slope::one(), Slope::zero());
    assert forall|i: int, j: int| 0 <= i < first.len() && 0 <= j < second.len() implies first[i]
        != second[j] by {
        lemma_sectors(one, step(origin, first[i]));
        lemma_sectors(other, step(origin, second[j]));
    }
}

/// Whether every cell of a list lies in the first column of the octant or
/// off its axis.
pub open spec fn all_near_or_off_axis(
    cells: Seq<(u16, u16)>,
    origin: (u16, u16),
    octant: u8,
) -> bool {
    forall|i: int|
        0 <= i < cells.len() ==> column_of(octant, step(origin, #[trigger] cells[i])) == 1
            || row_of(octant, step(origin, cells[i])) >= 1
}

/// Whatever the scan of the first column visits lies in that column or off
/// the axis: behind every occluder of the first column, the axis is out of
/// view.
proof fn lemma_first_column_cells(
    shape: Shape,
    origin: (u16, u16),
    radius: int,
    octant: u8,
    row: int,
    start: Slope,
    next: Slope,
    end: Slope,
    occluded: bool,
)
    requires
        octant < 8,
        forall|p: (int, int)| shape.inside.contains(p) ==> addressable(p),
    ensures
        all_near_or_off_axis(
            scan_row(shape, origin, radius, octant, 1, row, start, next, end, occluded).cells,
            origin,
            octant,
        ),
    decreases row + 1,
{
    let scan = scan_row(shape, origin, radius, octant, 1, row, start, next, end, occluded);
    if row < 0 || 1 > radius || radius > 0xffff || row > 1 {
    } else if Slope::far(1, row).less(end) {
    } else if start.less(Slope::near(1, row)) {
        lemma_first_column_cells(shape, origin, radius, octant, row - 1, start, next, end, occluded);
    } else if !shape.inside.contains(placed(origin, 1, row, octant)) {
        lemma_first_column_cells(shape, origin, radius, octant, row - 1, start, next, end, occluded);
    } else {
        let near = Slope::near(1, row);
        let place = placed(origin, 1, row, octant);
        let here = crate::shadow::visit(place, 1, row, radius, octant);
        lemma_placed_back(1, row, octant);
        assert(addressable(place));
        assert forall|i: int| 0 <= i < here.len() implies column_of(
            octant,
            step(origin, #[trigger] here[i]),
        ) == 1 by {
            assert(step(origin, here[i]) == offset(1, row, octant));
        }
        if shape.walls.contains(place) {
            lemma_first_column_cells(shape, origin, radius, octant, row - 1, start, near, end, true);
            let rest = scan_row(shape, origin, radius, octant, 1, row - 1, start, near, end, true);
            if occluded {
                assert(scan.cells =~= here + rest.cells);
                lemma_joined_near(here, rest.cells, origin, octant);
            } else {
                let far = Slope::far(1, row);
                lemma_far_clears(1, row);
                lemma_octant_cells(shape, origin, radius, octant, 2, start, far);
                let deeper = scan_octant(shape, origin, radius, octant, 2, start, far);
                assert(scan.cells =~= (here + deeper) + rest.cells);
                lemma_joined_near(here, deeper, origin, octant);
                lemma_joined_near(here + deeper, rest.cells, origin, octant);
            }
        } else if occluded {
            lemma_first_column_cells(shape, origin, radius, octant, row - 1, next, next, end, false);
            let rest = scan_row(shape, origin, radius, octant, 1, row - 1, next, next, end, false);
            assert(scan.cells =~= here + rest.cells);
            lemma_joined_near(here, rest.cells, origin, octant);
        } else {
            lemma_first_column_cells(shape, origin, radius, octant, row - 1, start, next, end, false);
            let rest = scan_row(shape, origin, radius, octant, 1, row - 1, start, next, end, false);
            assert(scan.cells =~= here + rest.cells);
            lemma_joined_near(here, rest.cells, origin, octant);
        }
    }
}

proof fn lemma_joined_near(
    first: Seq<(u16, u16)>,
    second: Seq<(u16, u16)>,
    origin: (u16, u16),
    octant: u8,
)
    requires
        forall|i: int|
            0 <= i < first.len() ==> column_of(octant, step(origin, #[trigger] first[i])) == 1
                || row_of(octant, step(origin, first[i])) >= 1,
        forall|i: int|
            0 <= i < second.len() ==> column_of(octant, step(origin, #[trigger] second[i])) == 1
                || row_of(octant, step(origin, second[i])) >= 1,
    ensures
        all_near_or_off_axis(first + second, origin, octant),
{
    assert forall|i: int| 0 <= i < (first + second).len() implies column_of(
        octant,
        step(origin, #[trigger] (first + second)[i]),
    ) == 1 || row_of(octant, step(origin, (first + second)[i])) >= 1 by {
        if i < first.len() {
            assert((first + second)[i] == first[i]);
        } else {
            assert((first + second)[i] == second[i - first.len()]);
        }
    }
}

/// With an occluder on the axis cell of the first column, the scan of that
/// column ends occluded.
proof fn lemma_axis_wall(shape: Shape, origin: (u16, u16), radius: int, octant: u8)
    requires
        octant < 8,
        1 <= radius <= 0xffff,
        shape.inside.contains(placed(origin, 1, 0, octant)),
        shape.walls.contains(placed(origin, 1, 0, octant)),
    ensures
        scan_row(
            shape,
            origin,
            radius,
            octant,
            1,
            1,
            Slope::one(),
            Slope::one(),
            Slope::zero(),
            false,
        ).occluded,
{
    let one = Slope::one();
    let zero = Slope::zero();
    lemma_wide_window(1, 1);
    lemma_axis_wall_at(shape, origin, radius, octant, one, false);
    lemma_axis_wall_at(shape, origin, radius, octant, Slope::near(1, 1), true);
}

/// The same from the axis cell itself, whatever the scan has met above it.
proof fn lemma_axis_wall_at(
    shape: Shape,
    origin: (u16, u16),
    radius: int,
    octant: u8,
    next: Slope,
    occluded: bool,
)
    requires
        octant < 8,
        1 <= radius <= 0xffff,
        shape.inside.contains(placed(origin, 1, 0, octant)),
        shape.walls.contains(placed(origin, 1, 0, octant)),
    ensures
        scan_row(
            shape,
            origin,
            radius,
            octant,
            1,
            0,
            Slope::one(),
            next,
            Slope::zero(),
            occluded,
        ).occluded,
{
    lemma_wide_window(1, 0);
    let below = scan_row(
        shape,
        origin,
        radius,
        octant,
        1,
        -1,
        Slope::one(),
        Slope::near(1, 0),
        Slope::zero(),
        true,
    );
    assert(below.occluded);
}

/// An occluder next to the origin on the axis of an octant hides the axis
/// behind it: no cell of the octant's axis beyond the first column is in
/// view.
pub proof fn lemma_wall_hides_axis<M: GridMap>(
    map: &M,
    origin: (u16, u16),
    radius: int,
    octant: u8,
    column: int,
)
    requires
        octant == 0 || octant == 3 || octant == 5 || octant == 6,
        1 <= radius <= 0xffff,
        addressable(placed(origin, 1, 0, octant)),
        map.inside(cell_at(origin, 1, 0, octant).0, cell_at(origin, 1, 0, octant).1),
        map.occluded(cell_at(origin, 1, 0, octant).0, cell_at(origin, 1, 0, octant).1),
        2 <= column,
        addressable(placed(origin, column, 0, octant)),
    ensures
        !field_of_view(shape_of(map), origin, radius).contains(
            cell_at(origin, column, 0, octant),
        ),
{
    let shape = shape_of(map);
    let target = cell_at(origin, column, 0, octant);
    let view = field_of_view(shape, origin, radius);
    lemma_placed_back(column, 0, octant);
    assert(step(origin, target) == offset(column, 0, octant));
    lemma_sectors(octant, step(origin, target));
    assert(shape.inside.contains(placed(origin, 1, 0, octant)));
    assert(shape.walls.contains(placed(origin, 1, 0, octant)));
    lemma_hidden_from(map, origin, radius, octant, column, 0);
    let rest = scan_octants(shape, origin, radius, 0);
    assert(view =~= seq![origin] + rest);
    if view.contains(target) {
        let found = choose|j: int| 0 <= j < view.len() && view[j] == target;
        if found > 0 {
            assert(view[found] == rest[found - 1]);
            assert(rest.contains(target));
        }
    }
}

/// The octants from `from` on do not show the hidden axis cell either.
proof fn lemma_hidden_from<M: GridMap>(
    map: &M,
    origin: (u16, u16),
    radius: int,
    octant: u8,
    column: int,
    from: u8,
)
    requires
        octant < 8,
        from <= 8,
        1 <= radius <= 0xffff,
        shape_of(map).inside.contains(placed(origin, 1, 0, octant)),
        shape_of(map).walls.contains(placed(origin, 1, 0, octant)),
        2 <= column,
        sector(octant, step(origin, cell_at(origin, column, 0, octant))),
        column_of(octant, step(origin, cell_at(origin, column, 0, octant))) == column,
        row_of(octant, step(origin, cell_at(origin, column, 0, octant))) == 0,
    ensures
        !scan_octants(shape_of(map), origin, radius, from).contains(
            cell_at(origin, column, 0, octant),
        ),
    decreases 8 - from,
{
    let shape = shape_of(map);
    let target = cell_at(origin, column, 0, octant);
    let cells = scan_octants(shape, origin, radius, from);
    if from < 8 {
        lemma_hidden_from(map, origin, radius, octant, column, (from + 1) as u8);
        let first = scan_octant(shape, origin, radius, from, 1, Slope::one(), Slope::zero());
        let rest = scan_octants(shape, origin, radius, (from + 1) as u8);
        assert(cells =~= first + rest);
        lemma_octant_cells(shape, origin, radius, from, 1, Slope::one(), Slope::zero());
        if from == octant {
            assert(!Slope::one().less(Slope::zero()));
            let row = scan_row(
                shape,
                origin,
                radius,
                octant,
                1,
                1,
                Slope::one(),
                Slope::one(),
                Slope::zero(),
                false,
            );
            lemma_axis_wall(shape, origin, radius, octant);
            lemma_first_column_cells(
                shape,
                origin,
                radius,
                octant,
                1,
                Slope::one(),
                Slope::one(),
                Slope::zero(),
                false,
            );
            assert(first =~= row.cells);
        }
        if cells.contains(target) {
            let found = choose|j: int| 0 <= j < cells.len() && cells[j] == target;
            if found < first.len() {
                assert(cells[found] == first[found]);
                if from != octant {
                    lemma_sectors(from, step(origin, target));
                    lemma_sectors(octant, step(origin, target));
                }
            } else {
                assert(cells[found] == rest[found - first.len()]);
                assert(rest.contains(target));
            }
        }
    } else {
        assert(cells =~= Seq::<(u16, u16)>::empty());
    }
}

/// Whether every cell of a list lies in an octant from `octant` on, and on
/// the grid within the radius.
pub open spec fn all_beyond<M: GridMap>(
    cells: Seq<(u16, u16)>,
    map: &M,
    origin: (u16, u16),
    radius: int,
    octant: u8,
) -> bool {
    forall|i: int|
        0 <= i < cells.len() ==> {
            let d = step(origin, #[trigger] cells[i]);
            &&& d != (0int, 0int)
            &&& octant <= sector_of(d)
            &&& in_sight(map, origin, radius, cells[i])
        }
}

/// A cell within the radius lies in a column within the radius.
proof fn lemma_column_in_reach(column: int, row: int, radius: int)
    requires
        0 <= row <= column,
        0 <= radius,
        column * column + row * row <= radius * radius,
    ensures
        column <= radius,
{
    assert(column <= radius) by (nonlinear_arith)
        requires
            0 <= row <= column,
            0 <= radius,
            column * column + row * row <= radius * radius,
    ;
}

/// On open ground the octants from `octant` on show every cell of theirs
/// that is on the grid and within the radius, and none twice.
pub proof fn lemma_open_octants<M: GridMap>(map: &M, origin: (u16, u16), radius: int, octant: u8)
    requires
        is_open(map),
        0 <= radius <= 0xffff,
        octant <= 8,
    ensures
        scan_octants(shape_of(map), origin, radius, octant).no_duplicates(),
        all_beyond(scan_octants(shape_of(map), origin, radius, octant), map, origin, radius, octant),
        forall|cell: (u16, u16)|
            in_sight(map, origin, radius, cell) && cell != origin && octant <= sector_of(
                step(origin, cell),
            ) ==> #[trigger] scan_octants(shape_of(map), origin, radius, octant).contains(cell),
    decreases 8 - octant,
{
    let shape = shape_of(map);
    let cells = scan_octants(shape, origin, radius, octant);
    if octant < 8 {
        lemma_open_octants(map, origin, radius, (octant + 1) as u8);
        assert(shape.walls =~= Set::<(int, int)>::empty());
        lemma_open_columns(shape, origin, radius, octant, 1);
        let first = scan_octant(shape, origin, radius, octant, 1, Slope::one(), Slope::zero());
        let rest = scan_octants(shape, origin, radius, (octant + 1) as u8);
        assert(!Slope::one().less(Slope::zero()));
        assert(cells =~= first + rest);
        assert forall|i: int| 0 <= i < first.len() implies {
            let d = step(origin, #[trigger] first[i]);
            &&& d != (0int, 0int)
            &&& sector_of(d) == octant
            &&& in_sight(map, origin, radius, first[i])
        } by {
            let d = step(origin, first[i]);
            lemma_sectors(octant, d);
            crate::shadow::lemma_offset_distance(column_of(octant, d), row_of(octant, d), octant);
        }
        assert forall|i: int, j: int| 0 <= i < first.len() && 0 <= j < rest.len() implies first[i]
            != rest[j] by {
            assert(sector_of(step(origin, first[i])) == octant);
            assert(sector_of(step(origin, rest[j])) >= octant + 1);
        }
        lemma_no_dup_in_concat(first, rest);
        assert forall|i: int| 0 <= i < cells.len() implies {
            let d = step(origin, #[trigger] cells[i]);
            &&& d != (0int, 0int)
            &&& octant <= sector_of(d)
            &&& in_sight(map, origin, radius, cells[i])
        } by {
            if i < first.len() {
                assert(cells[i] == first[i]);
            } else {
                assert(cells[i] == rest[i - first.len()]);
            }
        }
        assert forall|cell: (u16, u16)|
            in_sight(map, origin, radius, cell) && cell != origin && octant <= sector_of(
                step(origin, cell),
            ) implies cells.contains(cell) by {
            let d = step(origin, cell);
            if sector_of(d) == octant {
                lemma_sectors(octant, d);
                let column = column_of(octant, d);
                let row = row_of(octant, d);
                crate::shadow::lemma_offset_distance(column, row, octant);
                lemma_column_in_reach(column, row, radius);
                assert(placed(origin, column, row, octant) == (cell.0 as int, cell.1 as int));
                assert(shown(shape, origin, radius, octant, column, row));
                assert(cell_at(origin, column, row, octant) == cell);
                assert(first.contains(cell));
                let found = choose|j: int| 0 <= j < first.len() && first[j] == cell;
                assert(cells[found] == first[found]);
            } else {
                assert(rest.contains(cell));
                let found = choose|j: int| 0 <= j < rest.len() && rest[j] == cell;
                assert(cells[first.len() + found] == rest[found]);
            }
        }
    } else {
        assert(cells =~= Seq::<(u16, u16)>::empty());
    }
}

/// On a grid without occluders, the field of view is the disc around the
/// origin: it holds the origin and every cell of the grid within the
/// radius, no cell twice, and nothing else.
pub proof fn lemma_open_field<M: GridMap>(map: &M, origin: (u16, u16), radius: int)
    requires
        is_open(map),
        0 <= radius <= 0xffff,
    ensures
        field_of_view(shape_of(map), origin, radius).no_duplicates(),
        field_of_view(shape_of(map), origin, radius).contains(origin),
        forall|cell: (u16, u16)|
            in_sight(map, origin, radius, cell) ==> #[trigger] field_of_view(
                shape_of(map),
                origin,
                radius,
            ).contains(cell),
        forall|cell: (u16, u16)| #[trigger]
            field_of_view(shape_of(map), origin, radius).contains(cell) ==> cell == origin
                || in_sight(map, origin, radius, cell),
{
    let shape = shape_of(map);
    let view = field_of_view(shape, origin, radius);
    let rest = scan_octants(shape, origin, radius, 0);
    lemma_open_octants(map, origin, radius, 0);
    assert(view =~= seq![origin] + rest);
    assert forall|i: int, j: int| 0 <= i < 1 && 0 <= j < rest.len() implies seq![origin][i]
        != rest[j] by {
        assert(step(origin, rest[j]) != (0int, 0int));
    }
    lemma_no_dup_in_concat(seq![origin], rest);
    assert(view[0] == origin);
    assert forall|cell: (u16, u16)| in_sight(map, origin, radius, cell) implies view.contains(
        cell,
    ) by {
        if cell != origin {
            assert(rest.contains(cell));
            let found = choose|j: int| 0 <= j < rest.len() && rest[j] == cell;
            assert(view[found + 1] == rest[found]);
        }
    }
    assert forall|cell: (u16, u16)| view.contains(cell) implies cell == origin || in_sight(
        map,
        origin,
        radius,
        cell,
    ) by {
        let found = choose|j: int| 0 <= j < view.len() && view[j] == cell;
        if found > 0 {
            assert(view[found] == rest[found - 1]);
        }
    }
}

} // verus!
