use std::io::Write;

use csview::input::decode_input;
use csview::input::DecodeError;
use csview::is_gzipped;

fn gzip(data: &[u8]) -> Vec<u8> {
    let mut enc = flate2::write::GzEncoder::new(Vec::new(), flate2::Compression::default());
    enc.write_all(data).unwrap();
    enc.finish().unwrap()
}

#[test]
fn gz_magic_detected() {
    assert!(is_gzipped(&[0x1f, 0x8b, 0x08, 0x00, 0x00, 0x00], b"data.bin"));
    assert!(is_gzipped(&[0x1f, 0x8b, 0x08], b"data.bin"));
}

#[test]
fn wrong_magic_not_gzip() {
    assert!(!is_gzipped(&[0x1f, 0x8b, 0x09, 0x00, 0x00, 0x00], b"data.bin"));
    assert!(!is_gzipped(b"hello,", b"data.csv"));
}

#[test]
fn short_input_classified_without_failure() {
    assert!(!is_gzipped(&[], b"data.csv"));
    assert!(!is_gzipped(&[0x1f], b"data.csv"));
    assert!(!is_gzipped(&[0x1f, 0x8b], b"data.csv"));
    assert!(is_gzipped(&[0x1f, 0x8b], b"data.csv.gz"));
    assert!(is_gzipped(&[], b"a.gz"));
}

#[test]
fn gz_extension_detected() {
    assert!(is_gzipped(b"plain text", b"data.csv.gz"));
    assert!(is_gzipped(b"", b"dir/archive.tar.gz"));
}

#[test]
fn gz_extension_needs_a_stem() {
    assert!(!is_gzipped(b"", b".gz"));
    assert!(!is_gzipped(b"", b"dir/.gz"));
    assert!(!is_gzipped(b"", b"gz"));
}

#[test]
fn gz_directory_is_not_an_extension() {
    assert!(!is_gzipped(b"", b"dir.gz/file.txt"));
}

#[test]
fn decode_passes_plain_input_through() {
    let name = b"data.csv".to_vec();
    let r = decode_input(b"a,b\n".to_vec(), Some(&name));
    assert_eq!(r, Ok(b"a,b\n".to_vec()));
    let r = decode_input(b"a,b\n".to_vec(), None);
    assert_eq!(r, Ok(b"a,b\n".to_vec()));
}

#[test]
fn decode_decompresses_gzip() {
    let plain = b"x,y\n1,2\n".to_vec();
    let name = b"data.csv.gz".to_vec();
    let r = decode_input(gzip(&plain), Some(&name));
    assert_eq!(r, Ok(plain));
}

#[test]
fn decode_never_probes_stdin_for_gzip() {
    let gz = gzip(b"x,y\n");
    let r = decode_input(gz.clone(), None);
    assert_eq!(r, Ok(gz));
}

#[test]
fn corrupt_gzip_stream_is_an_error() {
    let mut data = gzip(b"x,y\n1,2\n");
    let n = data.len();
    data.truncate(n - 4);
    let name = b"data.csv.gz".to_vec();
    let r = decode_input(data, Some(&name));
    assert_eq!(r, Err(DecodeError::InvalidGzip));
}
