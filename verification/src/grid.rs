//! The in-memory grid and the rendering policy that fills it.
//!
//! Records become rows of cells. With header mode on (and column-index mode
//! off), the first record becomes the header row instead of a body row. With
//! column-index mode on, a synthetic first body row numbers the columns of
//! the first record 1..N, emphasized (bold, colored); header mode is then
//! ignored. The configured alignment applies to every cell, and the
//! configured maximum cell height to every row.

use vstd::prelude::*;

use crate::digits::dec_str;
use crate::digits::usize_to_string;

verus! {

/// A cell's alignment policy. An alignment keyword outside
/// `left`/`center`/`right` means no alignment styling at all.
#[derive(Clone, Copy, Debug, PartialEq, Eq, Structural)]
pub enum Align {
    Left,
    Center,
    Right,
    Unspecified,
}

/// The alignment a keyword selects: the three recognized literals, and no
/// styling for anything else.
pub open spec fn spec_parse_alignment(s: Seq<char>) -> Align {
    if s == "left"@ {
        Align::Left
    } else if s == "center"@ {
        Align::Center
    } else if s == "right"@ {
        Align::Right
    } else {
        Align::Unspecified
    }
}

/// Maps the alignment keyword to its policy; an unrecognized keyword
/// silently selects no alignment styling.
pub fn parse_alignment(s: &str) -> (a: Align)
    ensures
        a == spec_parse_alignment(s@),
{
    let t = s.to_owned();
    if t == "left".to_owned() {
        Align::Left
    } else if t == "center".to_owned() {
        Align::Center
    } else if t == "right".to_owned() {
        Align::Right
    } else {
        Align::Unspecified
    }
}

/// An alignment keyword outside the three recognized literals selects the
/// same policy as no alignment at all.
pub proof fn lemma_unknown_alignment_is_unstyled(s: Seq<char>)
    requires
        s != "left"@,
        s != "center"@,
        s != "right"@,
    ensures
        spec_parse_alignment(s) == Align::Unspecified,
{
}

/// One cell: its text, its alignment, and whether it is emphasized (the
/// bold, colored style of the column-index row).
pub struct GridCell {
    pub text: String,
    pub align: Align,
    pub emphasized: bool,
}

/// The mathematical value of a cell.
#[verifier::ext_equal]
pub ghost struct CellView {
    pub text: Seq<char>,
    pub align: Align,
    pub emphasized: bool,
}

impl View for GridCell {
    type V = CellView;

    open spec fn view(&self) -> CellView {
        CellView { text: self.text@, align: self.align, emphasized: self.emphasized }
    }
}

/// One row: its cells and the configured maximum rendered height, if any.
pub struct GridRow {
    pub cells: Vec<GridCell>,
    pub max_height: Option<usize>,
}

/// The mathematical value of a row.
#[verifier::ext_equal]
pub ghost struct RowView {
    pub cells: Seq<CellView>,
    pub max_height: Option<usize>,
}

impl View for GridRow {
    type V = RowView;

    open spec fn view(&self) -> RowView {
        RowView {
            cells: Seq::new(self.cells@.len(), |i: int| self.cells@[i]@),
            max_height: self.max_height,
        }
    }
}

/// The grid: an optional header row and the body rows in order.
pub struct Grid {
    pub header: Option<GridRow>,
    pub rows: Vec<GridRow>,
}

/// The mathematical value of a grid.
#[verifier::ext_equal]
pub ghost struct GridView {
    pub header: Option<RowView>,
    pub rows: Seq<RowView>,
}

impl View for Grid {
    type V = GridView;

    open spec fn view(&self) -> GridView {
        GridView {
            header: match self.header {
                Some(r) => Some(r@),
                None => None,
            },
            rows: Seq::new(self.rows@.len(), |i: int| self.rows@[i]@),
        }
    }
}

/// The row a data record becomes: one cell per field, text verbatim, the
/// configured alignment, no emphasis.
pub open spec fn spec_data_row(rec: Seq<Seq<char>>, align: Align, height: Option<usize>) -> RowView {
    RowView {
        cells: rec.map_values(
            (|t: Seq<char>| CellView { text: t, align, emphasized: false }),
        ),
        max_height: height,
    }
}

/// The synthetic column-index row for `ncols` columns: the numbers 1..ncols
/// in decimal, each emphasized, with the configured alignment and height.
pub open spec fn spec_index_row(ncols: nat, align: Align, height: Option<usize>) -> RowView {
    RowView {
        cells: Seq::new(
            ncols,
            (|i: int| CellView { text: dec_str((i + 1) as nat), align, emphasized: true }),
        ),
        max_height: height,
    }
}

/// Whether a run designates the first record as the header: header mode on,
/// column-index mode off, and at least one record present.
pub open spec fn spec_uses_header(
    recs: Seq<Seq<Seq<char>>>,
    header: bool,
    column_index: bool,
) -> bool {
    header && !column_index && recs.len() > 0
}

/// The grid a record sequence becomes under the given configuration.
pub open spec fn spec_grid(
    recs: Seq<Seq<Seq<char>>>,
    align: Align,
    height: Option<usize>,
    header: bool,
    column_index: bool,
) -> GridView {
    let use_header = spec_uses_header(recs, header, column_index);
    let index_rows: Seq<RowView> = if column_index && recs.len() > 0 {
        seq![spec_index_row(recs[0].len(), align, height)]
    } else {
        Seq::<RowView>::empty()
    };
    let data = if use_header {
        recs.drop_first()
    } else {
        recs
    };
    GridView {
        header: if use_header {
            Some(spec_data_row(recs[0], align, height))
        } else {
            None
        },
        rows: index_rows + data.map_values(
            (|rec: Seq<Seq<char>>| spec_data_row(rec, align, height)),
        ),
    }
}

fn make_data_row(rec: &Vec<String>, align: Align, height: Option<usize>) -> (r: GridRow)
    ensures
        r@ == spec_data_row(rec.deep_view(), align, height),
{
    let m: usize = rec.len();
    let mut cells: Vec<GridCell> = Vec::new();
    let mut j: usize = 0;
    while j < m
        invariant
            j <= m,
            m == rec@.len(),
            cells@.len() == j,
            forall|k: int|
                0 <= k < j ==> cells@[k]@ == (CellView {
                    text: rec@[k]@,
                    align,
                    emphasized: false,
                }),
        decreases m - j,
    {
        cells.push(GridCell { text: rec[j].clone(), align, emphasized: false });
        j = j + 1;
    }
    let r = GridRow { cells, max_height: height };
    proof {
        assert(r@ =~~= spec_data_row(rec.deep_view(), align, height));
    }
    r
}

fn make_index_row(ncols: usize, align: Align, height: Option<usize>) -> (r: GridRow)
    ensures
        r@ == spec_index_row(ncols as nat, align, height),
{
    let mut cells: Vec<GridCell> = Vec::new();
    let mut j: usize = 0;
    while j < ncols
        invariant
            j <= ncols,
            cells@.len() == j,
            forall|k: int|
                0 <= k < j ==> cells@[k]@ == (CellView {
                    text: dec_str((k + 1) as nat),
                    align,
                    emphasized: true,
                }),
        decreases ncols - j,
    {
        let text = usize_to_string(j + 1);
        cells.push(GridCell { text, align, emphasized: true });
        j = j + 1;
    }
    let r = GridRow { cells, max_height: height };
    proof {
        assert(r@ =~~= spec_index_row(ncols as nat, align, height));
    }
    r
}

/// Builds the grid for the given records and configuration: the optional
/// synthetic column-index row first, then (unless designated the header)
/// every record as a body row in input order.
pub fn build_grid(
    records: &Vec<Vec<String>>,
    align: Align,
    cell_height: Option<usize>,
    header: bool,
    column_index: bool,
) -> (g: Grid)
    ensures
        g@ == spec_grid(records.deep_view(), align, cell_height, header, column_index),
{
    let ghost recs = records.deep_view();
    let n: usize = records.len();
    let mut rows: Vec<GridRow> = Vec::new();
    if column_index && n > 0 {
        proof {
            assert(recs[0] =~~= records@[0].deep_view());
        }
        let ncols: usize = records[0].len();
        rows.push(make_index_row(ncols, align, cell_height));
    }
    let ghost base: int = rows@.len() as int;
    let mut hdr: Option<GridRow> = None;
    let mut start: usize = 0;
    if header && !column_index && n > 0 {
        proof {
            assert(recs[0] =~~= records@[0].deep_view());
        }
        hdr = Some(make_data_row(&records[0], align, cell_height));
        start = 1;
    }
    let ghost start0: int = start as int;
    let mut i: usize = start;
    while i < n
        invariant
            start0 <= i <= n,
            n == records@.len(),
            recs == records.deep_view(),
            recs.len() == n,
            rows@.len() == base + i - start0,
            column_index && n > 0 ==> base == 1 && rows@[0]@ == spec_index_row(
                recs[0].len(),
                align,
                cell_height,
            ),
            !(column_index && n > 0) ==> base == 0,
            forall|k: int|
                base <= k < rows@.len() ==> rows@[k]@ == spec_data_row(
                    recs[k - base + start0],
                    align,
                    cell_height,
                ),
        decreases n - i,
    {
        proof {
            assert(recs[i as int] =~~= records@[i as int].deep_view());
        }
        let r = make_data_row(&records[i], align, cell_height);
        rows.push(r);
        i = i + 1;
    }
    let g = Grid { header: hdr, rows };
    proof {
        assert(g@ =~~= spec_grid(recs, align, cell_height, header, column_index));
    }
    g
}

/// The count of body rows: one per data record, plus the column-index row
/// when present, minus the record designated the header when one is — and a
/// header row exactly when header mode applies to a non-empty input with
/// column-index mode off.
pub proof fn lemma_body_row_count(
    recs: Seq<Seq<Seq<char>>>,
    align: Align,
    height: Option<usize>,
    header: bool,
    column_index: bool,
)
    ensures
        spec_grid(recs, align, height, header, column_index).rows.len() == (if column_index
            && recs.len() > 0 {
            1int
        } else {
            0int
        }) + recs.len() - (if spec_uses_header(recs, header, column_index) {
            1int
        } else {
            0int
        }),
        (spec_grid(recs, align, height, header, column_index).header is Some) == spec_uses_header(
            recs,
            header,
            column_index,
        ),
{
}

/// The column-index row numbers exactly the columns of the first record:
/// cell i holds the decimal rendering of i + 1, emphasized.
pub proof fn lemma_index_row_matches_first_record(
    recs: Seq<Seq<Seq<char>>>,
    align: Align,
    height: Option<usize>,
    header: bool,
)
    requires
        recs.len() > 0,
    ensures
        spec_grid(recs, align, height, header, true).rows.len() > 0,
        spec_grid(recs, align, height, header, true).rows[0].cells.len() == recs[0].len(),
        forall|i: int|
            0 <= i < recs[0].len() ==> spec_grid(recs, align, height, header, true).rows[0].cells[i]
                == (CellView { text: dec_str((i + 1) as nat), align, emphasized: true }),
{
    let g = spec_grid(recs, align, height, header, true);
    assert(g.rows[0] == spec_index_row(recs[0].len(), align, height));
}

/// With column-index mode set, header mode has no effect: the grids are
/// identical, and neither designates a header row.
pub proof fn lemma_header_ignored_with_column_index(
    recs: Seq<Seq<Seq<char>>>,
    align: Align,
    height: Option<usize>,
)
    ensures
        spec_grid(recs, align, height, true, true) == spec_grid(recs, align, height, false, true),
        spec_grid(recs, align, height, true, true).header is None,
{
    assert(spec_grid(recs, align, height, true, true) =~~= spec_grid(
        recs,
        align,
        height,
        false,
        true,
    ));
}

/// A run with no records yields a grid with no rows at all: no body rows,
/// no header, and no column-index row.
pub proof fn lemma_empty_records_empty_grid(
    align: Align,
    height: Option<usize>,
    header: bool,
    column_index: bool,
)
    ensures
        spec_grid(Seq::<Seq<Seq<char>>>::empty(), align, height, header, column_index).rows.len()
            == 0,
        spec_grid(
            Seq::<Seq<Seq<char>>>::empty(),
            align,
            height,
            header,
            column_index,
        ).header is None,
{
}

} // verus!
