//! The table engine layer: the grid is handed, row by row and cell by cell,
//! to `comfy_table`, which serializes it with a full-bordered, round-corner
//! style and dynamic full-width content arrangement.
//!
//! The engine's `Table`, `Row` and `Cell` are opaque to the verifier; their
//! contents are modelled by uninterpreted functions, and each engine method
//! the logic calls is wrapped in a trusted item whose contract states, over
//! that model, what the engine's source shows.

use vstd::prelude::*;

use crate::grid::Align;
use crate::grid::CellView;
use crate::grid::Grid;
use crate::grid::GridCell;
use crate::grid::GridRow;
use crate::grid::RowView;

verus! {

#[verifier::external_type_specification]
#[verifier::external_body]
pub struct ExTable(comfy_table::Table);

#[verifier::external_type_specification]
#[verifier::external_body]
pub struct ExRow(comfy_table::Row);

#[verifier::external_type_specification]
#[verifier::external_body]
pub struct ExCell(comfy_table::Cell);

/// The model of an engine cell: its text, an alignment code (0 none, 1 left,
/// 2 center, 3 right), whether it is bold, and whether it is colored.
pub type CellRepr = (Seq<char>, int, bool, bool);

/// The model of an engine row: its cells and its maximum height, if set.
pub type RowRepr = (Seq<CellRepr>, Option<usize>);

/// What an engine cell holds.
pub uninterp spec fn cell_repr(c: comfy_table::Cell) -> CellRepr;

/// The cells an engine row holds.
pub uninterp spec fn row_cells(r: comfy_table::Row) -> Seq<CellRepr>;

/// The maximum height an engine row was given, if any.
pub uninterp spec fn row_limit(r: comfy_table::Row) -> Option<usize>;

/// The body rows an engine table holds, in order.
pub uninterp spec fn table_rows(t: comfy_table::Table) -> Seq<RowRepr>;

/// The header row an engine table holds, if one was set.
pub uninterp spec fn table_header(t: comfy_table::Table) -> Option<RowRepr>;

/// The alignment code of an alignment policy.
pub open spec fn align_code(a: Align) -> int {
    match a {
        Align::Left => 1,
        Align::Center => 2,
        Align::Right => 3,
        Align::Unspecified => 0,
    }
}

/// The engine model of a grid cell.
pub open spec fn cell_repr_of(cv: CellView) -> CellRepr {
    (cv.text, align_code(cv.align), cv.emphasized, cv.emphasized)
}

/// The engine's stored maximum height: it raises a configured zero to one.
pub open spec fn clamp_height(h: Option<usize>) -> Option<usize> {
    match h {
        Some(lines) => Some(
            if lines == 0 {
                1usize
            } else {
                lines
            },
        ),
        None => None,
    }
}

/// The engine model of a grid row.
pub open spec fn row_repr_of(rv: RowView) -> RowRepr {
    (rv.cells.map_values((|c: CellView| cell_repr_of(c))), clamp_height(rv.max_height))
}

/// Relies on `comfy_table::Table::new`: a fresh table has no body rows and
/// no header.
#[verifier::external_body]
fn table_new() -> (t: comfy_table::Table)
    ensures
        table_rows(t) == Seq::<RowRepr>::empty(),
        table_header(t) is None,
{
    comfy_table::Table::new()
}

/// Relies on `comfy_table::Table::load_style`: replacing the visual style
/// leaves the rows and the header as they were.
#[verifier::external_body]
fn table_load_rounded_style(t: &mut comfy_table::Table)
    ensures
        table_rows(*final(t)) == table_rows(*old(t)),
        table_header(*final(t)) == table_header(*old(t)),
{
    t.load_style(comfy_table::presets::UTF8_FULL.with_rounded_corners());
}

/// Relies on `comfy_table::Table::set_content_arrangement`: the arrangement
/// policy leaves the rows and the header as they were.
#[verifier::external_body]
fn table_dynamic_full_width(t: &mut comfy_table::Table)
    ensures
        table_rows(*final(t)) == table_rows(*old(t)),
        table_header(*final(t)) == table_header(*old(t)),
{
    t.set_content_arrangement(comfy_table::ContentArrangement::DynamicFullWidth);
}

/// Relies on `comfy_table::Table::set_width`: the width constraint leaves
/// the rows and the header as they were.
#[verifier::external_body]
fn table_set_width(t: &mut comfy_table::Table, width: u16)
    ensures
        table_rows(*final(t)) == table_rows(*old(t)),
        table_header(*final(t)) == table_header(*old(t)),
{
    t.set_width(width);
}

/// Relies on `comfy_table::Table::add_row`: the row is appended to the body
/// rows; the header is untouched.
#[verifier::external_body]
fn table_add_row(t: &mut comfy_table::Table, row: comfy_table::Row)
    ensures
        table_rows(*final(t)) == table_rows(*old(t)).push((row_cells(row), row_limit(row))),
        table_header(*final(t)) == table_header(*old(t)),
{
    t.add_row(row);
}

/// Relies on `comfy_table::Table::set_header`: the row becomes the header;
/// the body rows are untouched.
#[verifier::external_body]
fn table_set_header(t: &mut comfy_table::Table, row: comfy_table::Row)
    ensures
        table_header(*final(t)) == Some((row_cells(row), row_limit(row))),
        table_rows(*final(t)) == table_rows(*old(t)),
{
    t.set_header(row);
}

/// Relies on `comfy_table::Row::new`: a fresh row has no cells and no
/// maximum height.
#[verifier::external_body]
fn row_new() -> (r: comfy_table::Row)
    ensures
        row_cells(r) == Seq::<CellRepr>::empty(),
        row_limit(r) is None,
{
    comfy_table::Row::new()
}

/// Relies on `comfy_table::Row::add_cell`: the cell is appended; the
/// maximum height is untouched.
#[verifier::external_body]
fn row_add_cell(r: &mut comfy_table::Row, c: comfy_table::Cell)
    ensures
        row_cells(*final(r)) == row_cells(*old(r)).push(cell_repr(c)),
        row_limit(*final(r)) == row_limit(*old(r)),
{
    r.add_cell(c);
}

/// Relies on `comfy_table::Row::max_height`: the limit is stored, with zero
/// raised to one; the cells are untouched.
#[verifier::external_body]
fn row_max_height(r: &mut comfy_table::Row, lines: usize)
    ensures
        row_cells(*final(r)) == row_cells(*old(r)),
        row_limit(*final(r)) == Some(
            if lines == 0 {
                1usize
            } else {
                lines
            },
        ),
{
    r.max_height(lines);
}

/// Relies on `comfy_table::Cell::new`: the cell holds the given text, with
/// no alignment and no styling.
#[verifier::external_body]
fn cell_new(s: &String) -> (c: comfy_table::Cell)
    ensures
        cell_repr(c) == (s@, 0int, false, false),
{
    comfy_table::Cell::new(s)
}

/// Relies on `comfy_table::Cell::set_alignment` with `CellAlignment::Left`.
#[verifier::external_body]
fn cell_align_left(c: comfy_table::Cell) -> (r: comfy_table::Cell)
    ensures
        cell_repr(r) == (cell_repr(c).0, 1int, cell_repr(c).2, cell_repr(c).3),
{
    c.set_alignment(comfy_table::CellAlignment::Left)
}

/// Relies on `comfy_table::Cell::set_alignment` with `CellAlignment::Center`.
#[verifier::external_body]
fn cell_align_center(c: comfy_table::Cell) -> (r: comfy_table::Cell)
    ensures
        cell_repr(r) == (cell_repr(c).0, 2int, cell_repr(c).2, cell_repr(c).3),
{
    c.set_alignment(comfy_table::CellAlignment::Center)
}

/// Relies on `comfy_table::Cell::set_alignment` with `CellAlignment::Right`.
#[verifier::external_body]
fn cell_align_right(c: comfy_table::Cell) -> (r: comfy_table::Cell)
    ensures
        cell_repr(r) == (cell_repr(c).0, 3int, cell_repr(c).2, cell_repr(c).3),
{
    c.set_alignment(comfy_table::CellAlignment::Right)
}

/// Relies on `comfy_table::Cell::add_attribute` with `Attribute::Bold`.
#[verifier::external_body]
fn cell_bold(c: comfy_table::Cell) -> (r: comfy_table::Cell)
    ensures
        cell_repr(r) == (cell_repr(c).0, cell_repr(c).1, true, cell_repr(c).3),
{
    c.add_attribute(comfy_table::Attribute::Bold)
}

/// Relies on `comfy_table::Cell::fg` with `Color::Green`.
#[verifier::external_body]
fn cell_green(c: comfy_table::Cell) -> (r: comfy_table::Cell)
    ensures
        cell_repr(r) == (cell_repr(c).0, cell_repr(c).1, cell_repr(c).2, true),
{
    c.fg(comfy_table::Color::Green)
}

fn make_cell(cell: &GridCell) -> (c: comfy_table::Cell)
    ensures
        cell_repr(c) == cell_repr_of(cell@),
{
    let c = cell_new(&cell.text);
    let c = match cell.align {
        Align::Left => cell_align_left(c),
        Align::Center => cell_align_center(c),
        Align::Right => cell_align_right(c),
        Align::Unspecified => c,
    };
    if cell.emphasized {
        let c = cell_bold(c);
        cell_green(c)
    } else {
        c
    }
}

fn make_row(row: &GridRow) -> (r: comfy_table::Row)
    ensures
        row_cells(r) == row@.cells.map_values((|c: CellView| cell_repr_of(c))),
        row_limit(r) == clamp_height(row@.max_height),
{
    let mut r = row_new();
    match row.max_height {
        Some(h) => row_max_height(&mut r, h),
        None => (),
    }
    let m: usize = row.cells.len();
    let mut j: usize = 0;
    proof {
        assert(row_cells(r) =~= row@.cells.take(0).map_values((|c: CellView| cell_repr_of(c))));
    }
    while j < m
        invariant
            j <= m,
            m == row.cells@.len(),
            row@.cells.len() == m,
            row_cells(r) == row@.cells.take(j as int).map_values((|c: CellView| cell_repr_of(c))),
            row_limit(r) == clamp_height(row@.max_height),
        decreases m - j,
    {
        let c = make_cell(&row.cells[j]);
        row_add_cell(&mut r, c);
        proof {
            assert(row@.cells[j as int] == row.cells@[j as int]@);
            assert(row@.cells.take(j as int + 1) =~= row@.cells.take(j as int).push(
                row@.cells[j as int],
            ));
            assert(row@.cells.take(j as int).map_values((|c: CellView| cell_repr_of(c))).push(
                cell_repr_of(row@.cells[j as int]),
            ) =~= row@.cells.take(j as int + 1).map_values((|c: CellView| cell_repr_of(c))));
        }
        j = j + 1;
    }
    proof {
        assert(row@.cells.take(m as int) =~= row@.cells);
    }
    r
}

/// Hands the grid to the table engine: the full-bordered round-corner style
/// and the dynamic full-width arrangement are applied, the width constraint
/// set when configured, the header row set when the grid designates one, and
/// every body row appended in order.
pub fn grid_to_table(grid: &Grid, table_width: Option<u16>) -> (t: comfy_table::Table)
    ensures
        table_rows(t) == grid@.rows.map_values((|rv: RowView| row_repr_of(rv))),
        table_header(t) == match grid@.header {
            Some(rv) => Some(row_repr_of(rv)),
            None => None,
        },
{
    let mut t = table_new();
    table_load_rounded_style(&mut t);
    table_dynamic_full_width(&mut t);
    match table_width {
        Some(w) => table_set_width(&mut t, w),
        None => (),
    }
    match &grid.header {
        Some(hr) => {
            let r = make_row(hr);
            table_set_header(&mut t, r);
        },
        None => (),
    }
    let n: usize = grid.rows.len();
    let mut i: usize = 0;
    proof {
        assert(table_rows(t) =~= grid@.rows.take(0).map_values((|rv: RowView| row_repr_of(rv))));
    }
    while i < n
        invariant
            i <= n,
            n == grid.rows@.len(),
            grid@.rows.len() == n,
            table_rows(t) == grid@.rows.take(i as int).map_values((|rv: RowView| row_repr_of(rv))),
            table_header(t) == match grid@.header {
                Some(rv) => Some(row_repr_of(rv)),
                None => None,
            },
        decreases n - i,
    {
        let r = make_row(&grid.rows[i]);
        table_add_row(&mut t, r);
        proof {
            assert(grid@.rows[i as int] == grid.rows@[i as int]@);
            assert((row_cells(r), row_limit(r)) == row_repr_of(grid@.rows[i as int]));
            assert(grid@.rows.take(i as int + 1) =~= grid@.rows.take(i as int).push(
                grid@.rows[i as int],
            ));
            assert(grid@.rows.take(i as int).map_values((|rv: RowView| row_repr_of(rv))).push(
                row_repr_of(grid@.rows[i as int]),
            ) =~= grid@.rows.take(i as int + 1).map_values((|rv: RowView| row_repr_of(rv))));
        }
        i = i + 1;
    }
    proof {
        assert(grid@.rows.take(n as int) =~= grid@.rows);
    }
    t
}

} // verus!
