use csview::grid::build_grid;
use csview::grid::parse_alignment;
use csview::grid::Align;
use csview::grid::GridRow;

fn records(rows: &[&[&str]]) -> Vec<Vec<String>> {
    rows.iter().map(|r| r.iter().map(|f| f.to_string()).collect()).collect()
}

fn texts(row: &GridRow) -> Vec<String> {
    row.cells.iter().map(|c| c.text.clone()).collect()
}

#[test]
fn recognized_alignment_keywords() {
    assert_eq!(parse_alignment("left"), Align::Left);
    assert_eq!(parse_alignment("center"), Align::Center);
    assert_eq!(parse_alignment("right"), Align::Right);
}

#[test]
fn unrecognized_alignment_keyword_is_unstyled() {
    assert_eq!(parse_alignment("middle"), Align::Unspecified);
    assert_eq!(parse_alignment(""), Align::Unspecified);
    assert_eq!(parse_alignment("Left"), Align::Unspecified);
}

#[test]
fn every_record_is_a_body_row() {
    let recs = records(&[&["x", "y"], &["1", "2"], &["3", "4"]]);
    let g = build_grid(&recs, Align::Center, None, false, false);
    assert!(g.header.is_none());
    assert_eq!(g.rows.len(), 3);
    assert_eq!(texts(&g.rows[0]), vec!["x", "y"]);
    assert_eq!(texts(&g.rows[1]), vec!["1", "2"]);
    assert_eq!(texts(&g.rows[2]), vec!["3", "4"]);
}

#[test]
fn header_mode_designates_the_first_record() {
    let recs = records(&[&["x", "y"], &["1", "2"], &["3", "4"]]);
    let g = build_grid(&recs, Align::Center, None, true, false);
    assert_eq!(texts(g.header.as_ref().unwrap()), vec!["x", "y"]);
    assert_eq!(g.rows.len(), 2);
    assert_eq!(texts(&g.rows[0]), vec!["1", "2"]);
    assert_eq!(texts(&g.rows[1]), vec!["3", "4"]);
}

#[test]
fn column_index_row_counts_the_first_record_fields() {
    let recs = records(&[&["a", "b", "c"], &["1", "2", "3"]]);
    let g = build_grid(&recs, Align::Center, None, false, true);
    assert!(g.header.is_none());
    assert_eq!(g.rows.len(), 3);
    assert_eq!(texts(&g.rows[0]), vec!["1", "2", "3"]);
    assert!(g.rows[0].cells.iter().all(|c| c.emphasized));
    assert_eq!(texts(&g.rows[1]), vec!["a", "b", "c"]);
    assert_eq!(texts(&g.rows[2]), vec!["1", "2", "3"]);
    assert!(g.rows[1].cells.iter().all(|c| !c.emphasized));
}

#[test]
fn header_mode_has_no_effect_with_column_index() {
    let recs = records(&[&["x", "y"], &["1", "2"]]);
    let with_header = build_grid(&recs, Align::Left, Some(2), true, true);
    let without_header = build_grid(&recs, Align::Left, Some(2), false, true);
    assert!(with_header.header.is_none());
    assert!(without_header.header.is_none());
    assert_eq!(with_header.rows.len(), without_header.rows.len());
    for (a, b) in with_header.rows.iter().zip(without_header.rows.iter()) {
        assert_eq!(texts(a), texts(b));
        assert_eq!(a.max_height, b.max_height);
        for (ca, cb) in a.cells.iter().zip(b.cells.iter()) {
            assert_eq!(ca.align, cb.align);
            assert_eq!(ca.emphasized, cb.emphasized);
        }
    }
}

#[test]
fn index_row_renders_two_digit_numbers() {
    let fields: Vec<&str> = vec!["a"; 12];
    let recs = records(&[&fields]);
    let g = build_grid(&recs, Align::Center, None, false, true);
    let idx = texts(&g.rows[0]);
    assert_eq!(idx.len(), 12);
    assert_eq!(idx[0], "1");
    assert_eq!(idx[9], "10");
    assert_eq!(idx[11], "12");
}

#[test]
fn empty_records_make_an_empty_grid() {
    let recs: Vec<Vec<String>> = Vec::new();
    let g = build_grid(&recs, Align::Center, Some(3), true, true);
    assert!(g.header.is_none());
    assert!(g.rows.is_empty());
}

#[test]
fn header_mode_on_a_single_record_leaves_no_body_rows() {
    let recs = records(&[&["only", "row"]]);
    let g = build_grid(&recs, Align::Center, None, true, false);
    assert_eq!(texts(g.header.as_ref().unwrap()), vec!["only", "row"]);
    assert!(g.rows.is_empty());
}

#[test]
fn cell_height_is_applied_to_every_row() {
    let recs = records(&[&["x", "y"], &["1", "2"]]);
    let g = build_grid(&recs, Align::Center, Some(4), true, false);
    assert_eq!(g.header.as_ref().unwrap().max_height, Some(4));
    assert!(g.rows.iter().all(|r| r.max_height == Some(4)));
}

#[test]
fn alignment_is_applied_to_every_cell() {
    let recs = records(&[&["x", "y"], &["1", "2"]]);
    let g = build_grid(&recs, Align::Right, None, false, true);
    for row in &g.rows {
        assert!(row.cells.iter().all(|c| c.align == Align::Right));
    }
}
