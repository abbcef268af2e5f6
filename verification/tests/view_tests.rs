use std::io::Write;

use csview::input::DecodeError;
use csview::view_csv;

fn gzip(data: &[u8]) -> Vec<u8> {
    let mut enc = flate2::write::GzEncoder::new(Vec::new(), flate2::Compression::default());
    enc.write_all(data).unwrap();
    enc.finish().unwrap()
}

fn render(table: &comfy_table::Table) -> String {
    format!("{table}")
}

#[test]
fn gzip_scenario_renders_header_and_two_rows() {
    let name = b"data.csv.gz".to_vec();
    let data = gzip(b"x,y\n1,2\n3,4\n");
    let table = view_csv(data, Some(&name), b',', None, None, "center", true, false).unwrap();
    let out = render(&table);
    assert!(out.contains('x') && out.contains('y'));
    assert!(out.contains('1') && out.contains('2'));
    assert!(out.contains('3') && out.contains('4'));
    // top border, header, header separator, two body rows, one row separator,
    // bottom border
    assert_eq!(out.lines().count(), 7);
    // the full-bordered preset with rounded corners
    assert!(out.starts_with('╭'));
    assert!(out.trim_end().ends_with('╯'));
}

#[test]
fn cell_height_truncates_wrapped_content() {
    let data = b"aaaaaaaaaaaaaaaaaaaaaaaaaaaaaa\n".to_vec();
    let tall = view_csv(data.clone(), None, b',', Some(12), None, "center", false, false)
        .unwrap();
    let short = view_csv(data, None, b',', Some(12), Some(1), "center", false, false).unwrap();
    // the narrow width wraps the one cell over several lines; a cell height
    // of one truncates it back to a single line
    assert!(render(&tall).lines().count() > render(&short).lines().count());
    assert_eq!(render(&short).lines().count(), 3);
}

#[test]
fn alignment_changes_the_padding() {
    let data = b"ab\n".to_vec();
    let left = view_csv(data.clone(), None, b',', Some(20), None, "left", false, false).unwrap();
    let right = view_csv(data, None, b',', Some(20), None, "right", false, false).unwrap();
    assert_ne!(render(&left), render(&right));
}

#[test]
fn gzip_and_plain_input_render_identically() {
    let plain = b"x,y\n1,2\n3,4\n".to_vec();
    let gz_name = b"data.csv.gz".to_vec();
    let plain_name = b"data.csv".to_vec();
    let from_gz = view_csv(gzip(&plain), Some(&gz_name), b',', None, None, "center", true, false)
        .unwrap();
    let from_plain = view_csv(plain.clone(), Some(&plain_name), b',', None, None, "center", true,
        false).unwrap();
    let from_stdin = view_csv(plain, None, b',', None, None, "center", true, false).unwrap();
    assert_eq!(render(&from_gz), render(&from_plain));
    assert_eq!(render(&from_gz), render(&from_stdin));
}

#[test]
fn body_row_count_matches_record_count() {
    let data = b"a,b\nc,d\ne,f\n".to_vec();
    let plain = view_csv(data.clone(), None, b',', None, None, "center", false, false).unwrap();
    // top border, three body rows, two row separators, bottom border
    assert_eq!(render(&plain).lines().count(), 7);
    let indexed = view_csv(data, None, b',', None, None, "center", false, true).unwrap();
    // one more body row and one more separator: the column-index row
    assert_eq!(render(&indexed).lines().count(), 9);
}

#[test]
fn unknown_alignment_renders_like_no_alignment() {
    let data = b"alpha,b\ngamma,delta\n".to_vec();
    let bogus = view_csv(data.clone(), None, b',', Some(40), None, "middle", false, false)
        .unwrap();
    let unstyled = view_csv(data, None, b',', Some(40), None, "", false, false).unwrap();
    assert_eq!(render(&bogus), render(&unstyled));
}

#[test]
fn empty_input_renders_without_error() {
    let r = view_csv(Vec::new(), None, b',', None, None, "center", true, true);
    assert!(r.is_ok());
}

#[test]
fn corrupt_gzip_input_fails() {
    let name = b"data.csv.gz".to_vec();
    let mut data = gzip(b"x,y\n1,2\n");
    let n = data.len();
    data.truncate(n - 4);
    let r = view_csv(data, Some(&name), b',', None, None, "center", false, false);
    assert_eq!(r.unwrap_err(), DecodeError::InvalidGzip);
}

#[test]
fn invalid_utf8_records_are_dropped_from_the_table() {
    let data = b"a,b\n\xff\xfe,z\nc,d\n".to_vec();
    let table = view_csv(data, None, b',', None, None, "center", false, false).unwrap();
    let out = render(&table);
    // two body rows survive: top, row, separator, row, bottom
    assert_eq!(out.lines().count(), 5);
    assert!(out.contains('a') && out.contains('d'));
    assert!(!out.contains('z'));
}

#[test]
fn column_index_row_is_rendered_first() {
    let data = b"a,b,c\n1,2,3".to_vec();
    let table = view_csv(data, None, b',', None, None, "center", false, true).unwrap();
    let out = render(&table);
    let lines: Vec<&str> = out.lines().collect();
    // top, index row, separator, data row, separator, data row, bottom
    assert_eq!(lines.len(), 7);
    assert!(lines[1].contains('1') && lines[1].contains('2') && lines[1].contains('3'));
    assert!(lines[3].contains('a') && lines[3].contains('b') && lines[3].contains('c'));
}
