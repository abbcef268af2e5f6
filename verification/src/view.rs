//! The whole pipeline: raw source bytes to a renderable table.
//!
//! The run buffers the source once; the column-index probe of the first
//! record and the main pass both read that same buffered sequence, which
//! matches re-reading an immutable source.

use vstd::prelude::*;

use crate::grid::Align;
use crate::grid::GridView;
use crate::grid::RowView;
use crate::grid::build_grid;
use crate::grid::parse_alignment;
use crate::grid::spec_grid;
use crate::grid::spec_parse_alignment;
use crate::input::DecodeError;
use crate::input::decode_input;
use crate::input::gunzip_of;
use crate::input::opt_name_view;
use crate::input::spec_decode;
use crate::input::spec_has_gz_ext;
use crate::input::spec_is_gzipped;
use crate::records::decode_records;
use crate::records::parse_records;
use crate::records::spec_records;
use crate::records::to_text_records;
use crate::table::grid_to_table;
use crate::table::row_repr_of;
use crate::table::table_header;
use crate::table::table_rows;

verus! {

/// The text records of a decoded byte stream: its delimited records, with
/// records of invalid UTF-8 silently skipped.
pub open spec fn spec_text_records(data: Seq<u8>, delimiter: u8) -> Seq<Seq<Seq<char>>> {
    decode_records(spec_records(data, delimiter))
}

/// The grid a raw source renders to under a configuration, or nothing when
/// the source claims to be gzip and its stream is malformed.
pub open spec fn spec_view(
    data: Seq<u8>,
    name: Option<Seq<u8>>,
    delimiter: u8,
    height: Option<usize>,
    align: Align,
    header: bool,
    column_index: bool,
) -> Option<GridView> {
    match spec_decode(data, name) {
        Some(bytes) => Some(
            spec_grid(spec_text_records(bytes, delimiter), align, height, header, column_index),
        ),
        None => None,
    }
}

/// Renders a raw source as a table: decompresses it when it is classified
/// as gzip, splits it into delimited records, drops records of invalid
/// UTF-8, and lays the rest out as a grid with the configured width, cell
/// height, alignment keyword, header mode and column-index mode.
///
/// Fails exactly when a source classified as gzip holds a malformed stream.
pub fn view_csv(
    data: Vec<u8>,
    name: Option<&Vec<u8>>,
    delimiter: u8,
    table_width: Option<u16>,
    cell_height: Option<usize>,
    alignment: &str,
    header: bool,
    column_index: bool,
) -> (r: Result<comfy_table::Table, DecodeError>)
    ensures
        (r is Ok) <==> (spec_view(
            data@,
            opt_name_view(name),
            delimiter,
            cell_height,
            spec_parse_alignment(alignment@),
            header,
            column_index,
        ) is Some),
        r is Ok ==> ({
            let g = spec_view(
                data@,
                opt_name_view(name),
                delimiter,
                cell_height,
                spec_parse_alignment(alignment@),
                header,
                column_index,
            ).unwrap();
            table_rows(r.unwrap()) == g.rows.map_values((|rv: RowView| row_repr_of(rv)))
                && table_header(r.unwrap()) == match g.header {
                Some(rv) => Some(row_repr_of(rv)),
                None => None,
            }
        }),
        r is Err ==> r.unwrap_err() == DecodeError::InvalidGzip,
{
    let align = parse_alignment(alignment);
    let bytes = match decode_input(data, name) {
        Ok(b) => b,
        Err(e) => {
            return Err(e);
        },
    };
    let raw = parse_records(bytes.as_slice(), delimiter);
    let text = to_text_records(&raw);
    let grid = build_grid(&text, align, cell_height, header, column_index);
    Ok(grid_to_table(&grid, table_width))
}

/// A plain (non-gzip) source always renders, and its body row count is
/// exact: one row per kept record, plus the column-index row when present,
/// minus the record designated the header when one is.
pub proof fn lemma_plain_input_row_count(
    data: Seq<u8>,
    name: Option<Seq<u8>>,
    delimiter: u8,
    height: Option<usize>,
    align: Align,
    header: bool,
    column_index: bool,
)
    requires
        match name {
            Some(nm) => !spec_is_gzipped(data, nm),
            None => true,
        },
    ensures
        ({
            let n = spec_text_records(data, delimiter).len();
            let g = spec_view(data, name, delimiter, height, align, header, column_index);
            g matches Some(grid) && grid.rows.len() == (if column_index && n > 0 {
                1int
            } else {
                0int
            }) + n - (if header && !column_index && n > 0 {
                1int
            } else {
                0int
            }) && ((grid.header is Some) == (header && !column_index && n > 0))
        }),
{
    crate::grid::lemma_body_row_count(
        spec_text_records(data, delimiter),
        align,
        height,
        header,
        column_index,
    );
}

/// At the pipeline level, header mode has no effect when column-index mode
/// is set: the two runs yield the same result.
pub proof fn lemma_header_ignored_with_column_index(
    data: Seq<u8>,
    name: Option<Seq<u8>>,
    delimiter: u8,
    height: Option<usize>,
    align: Align,
)
    ensures
        spec_view(data, name, delimiter, height, align, true, true) == spec_view(
            data,
            name,
            delimiter,
            height,
            align,
            false,
            true,
        ),
{
    match spec_decode(data, name) {
        Some(bytes) => {
            crate::grid::lemma_header_ignored_with_column_index(
                spec_text_records(bytes, delimiter),
                align,
                height,
            );
        },
        None => {},
    }
}

/// An alignment keyword outside `left`/`center`/`right` yields the same
/// result as no alignment styling at all.
pub proof fn lemma_unknown_alignment_same_view(
    data: Seq<u8>,
    name: Option<Seq<u8>>,
    delimiter: u8,
    height: Option<usize>,
    keyword: Seq<char>,
    header: bool,
    column_index: bool,
)
    requires
        keyword != "left"@,
        keyword != "center"@,
        keyword != "right"@,
    ensures
        spec_view(
            data,
            name,
            delimiter,
            height,
            spec_parse_alignment(keyword),
            header,
            column_index,
        ) == spec_view(data, name, delimiter, height, Align::Unspecified, header, column_index),
{
    crate::grid::lemma_unknown_alignment_is_unstyled(keyword);
}

/// Gzip-compressed input and the equivalent plain input render identically:
/// when a gzip-classified source decompresses to exactly the bytes of a
/// plain-classified source, the two runs yield the same grid under the same
/// configuration.
pub proof fn lemma_gzip_plain_equivalent(
    gz: Seq<u8>,
    gz_name: Seq<u8>,
    plain: Seq<u8>,
    plain_name: Option<Seq<u8>>,
    delimiter: u8,
    height: Option<usize>,
    align: Align,
    header: bool,
    column_index: bool,
)
    requires
        spec_is_gzipped(gz, gz_name),
        gunzip_of(gz) == Some(plain),
        match plain_name {
            Some(nm) => !spec_is_gzipped(plain, nm),
            None => true,
        },
    ensures
        spec_view(gz, Some(gz_name), delimiter, height, align, header, column_index) == spec_view(
            plain,
            plain_name,
            delimiter,
            height,
            align,
            header,
            column_index,
        ),
{
}

/// Empty input renders to a table with no rows at all — no body rows, no
/// header, no column-index row — and never to an error, as long as its name
/// does not misclassify it as gzip.
pub proof fn lemma_empty_input_empty_table(
    name: Option<Seq<u8>>,
    delimiter: u8,
    height: Option<usize>,
    align: Align,
    header: bool,
    column_index: bool,
)
    requires
        match name {
            Some(nm) => !spec_has_gz_ext(nm),
            None => true,
        },
    ensures
        spec_view(Seq::<u8>::empty(), name, delimiter, height, align, header, column_index)
            matches Some(g) && g.rows.len() == 0 && g.header is None,
{
    let data = Seq::<u8>::empty();
    assert(spec_decode(data, name) == Some(data));
    assert(spec_records(data, delimiter) =~= Seq::<Seq<Seq<u8>>>::empty());
    assert(spec_text_records(data, delimiter) =~= Seq::<Seq<Seq<char>>>::empty());
    crate::grid::lemma_empty_records_empty_grid(align, height, header, column_index);
}

} // verus!
