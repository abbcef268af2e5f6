use csview::digits::usize_to_string;
use csview::records::parse_records;
use csview::records::to_text_records;

fn bytes(fields: &[&str]) -> Vec<Vec<u8>> {
    fields.iter().map(|f| f.as_bytes().to_vec()).collect()
}

fn strings(fields: &[&str]) -> Vec<String> {
    fields.iter().map(|f| f.to_string()).collect()
}

#[test]
fn splits_lines_and_fields() {
    let r = parse_records(b"a,b\n1,2\n", b',');
    assert_eq!(r, vec![bytes(&["a", "b"]), bytes(&["1", "2"])]);
}

#[test]
fn tab_is_a_delimiter_like_any_other() {
    let r = parse_records(b"a\tb\nc\td\n", b'\t');
    assert_eq!(r, vec![bytes(&["a", "b"]), bytes(&["c", "d"])]);
}

#[test]
fn field_counts_may_differ() {
    let r = parse_records(b"a,b,c\nd\ne,f\n", b',');
    assert_eq!(r, vec![bytes(&["a", "b", "c"]), bytes(&["d"]), bytes(&["e", "f"])]);
}

#[test]
fn crlf_line_endings_are_tolerated() {
    let r = parse_records(b"a,b\r\n1,2\r\n", b',');
    assert_eq!(r, vec![bytes(&["a", "b"]), bytes(&["1", "2"])]);
}

#[test]
fn carriage_return_inside_a_field_is_kept() {
    let r = parse_records(b"a\rb,c\n", b',');
    assert_eq!(r, vec![bytes(&["a\rb", "c"])]);
}

#[test]
fn last_line_without_newline_is_a_record() {
    let r = parse_records(b"a,b", b',');
    assert_eq!(r, vec![bytes(&["a", "b"])]);
}

#[test]
fn empty_input_has_no_records() {
    let r = parse_records(b"", b',');
    assert_eq!(r, Vec::<Vec<Vec<u8>>>::new());
}

#[test]
fn empty_line_is_a_record_with_one_empty_field() {
    let r = parse_records(b"a\n\nb\n", b',');
    assert_eq!(r, vec![bytes(&["a"]), bytes(&[""]), bytes(&["b"])]);
}

#[test]
fn adjacent_delimiters_make_empty_fields() {
    let r = parse_records(b",a,\n", b',');
    assert_eq!(r, vec![bytes(&["", "a", ""])]);
}

#[test]
fn valid_records_become_text() {
    let raw = parse_records(b"a,b\nc,d\n", b',');
    let t = to_text_records(&raw);
    assert_eq!(t, vec![strings(&["a", "b"]), strings(&["c", "d"])]);
}

#[test]
fn multibyte_utf8_fields_are_decoded() {
    let raw = parse_records("α,β\né,ü\n".as_bytes(), b',');
    let t = to_text_records(&raw);
    assert_eq!(t, vec![strings(&["α", "β"]), strings(&["é", "ü"])]);
}

#[test]
fn invalid_utf8_record_is_skipped() {
    let raw = parse_records(b"a,b\n\xff\xfe,z\nc,d\n", b',');
    assert_eq!(raw.len(), 3);
    let t = to_text_records(&raw);
    assert_eq!(t, vec![strings(&["a", "b"]), strings(&["c", "d"])]);
}

#[test]
fn decimal_rendering_is_exact() {
    assert_eq!(usize_to_string(0), "0");
    assert_eq!(usize_to_string(7), "7");
    assert_eq!(usize_to_string(10), "10");
    assert_eq!(usize_to_string(123), "123");
    assert_eq!(usize_to_string(9070), "9070");
}
