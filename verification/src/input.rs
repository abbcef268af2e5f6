//! Classification of raw input bytes: gzip or plain.
//!
//! A source is treated as gzip-compressed when its first bytes carry the gzip
//! magic sequence `1F 8B 08`, or when its file name ends in a `.gz`
//! extension. The probe tolerates inputs shorter than the magic sequence.

use vstd::prelude::*;

verus! {

/// True when the probed bytes open with the gzip magic sequence `1F 8B 08`.
pub open spec fn spec_starts_with_gz_magic(magic: Seq<u8>) -> bool {
    magic.len() >= 3 && magic[0] == 0x1fu8 && magic[1] == 0x8bu8 && magic[2] == 0x08u8
}

/// Position of the last occurrence of `b` in `s`, if any.
pub open spec fn find_last(s: Seq<u8>, b: u8) -> Option<int>
    decreases s.len(),
{
    if s.len() == 0 {
        None
    } else if s.last() == b {
        Some(s.len() - 1)
    } else {
        find_last(s.drop_last(), b)
    }
}

proof fn lemma_find_last(s: Seq<u8>, b: u8)
    ensures
        match find_last(s, b) {
            Some(i) => 0 <= i < s.len() && s[i] == b && (forall|j: int|
                i < j < s.len() ==> s[j] != b),
            None => forall|j: int| 0 <= j < s.len() ==> s[j] != b,
        },
    decreases s.len(),
{
    if s.len() > 0 && s.last() != b {
        lemma_find_last(s.drop_last(), b);
        assert(forall|j: int| 0 <= j < s.len() - 1 ==> s[j] == s.drop_last()[j]);
    }
}

/// Index just past the last path separator: the start of the final component.
pub open spec fn component_start(name: Seq<u8>) -> int {
    match find_last(name, 47u8) {
        Some(i) => i + 1,
        None => 0,
    }
}

/// True when the final path component of `name` has extension `gz`: a dot
/// that is neither its first byte nor absent, followed exactly by `gz`.
pub open spec fn spec_has_gz_ext(name: Seq<u8>) -> bool {
    let comp = name.subrange(component_start(name), name.len() as int);
    match find_last(comp, 46u8) {
        Some(d) => d >= 1 && comp.subrange(d + 1, comp.len() as int) =~= seq![103u8, 122u8],
        None => false,
    }
}

/// A source is gzip-compressed when the magic bytes match or the name ends
/// in `.gz`.
pub open spec fn spec_is_gzipped(magic: Seq<u8>, name: Seq<u8>) -> bool {
    spec_starts_with_gz_magic(magic) || spec_has_gz_ext(name)
}

/// Position of the last occurrence of `b` in `s`, if any.
fn last_pos(s: &[u8], b: u8) -> (r: Option<usize>)
    ensures
        match r {
            Some(i) => find_last(s@, b) == Some(i as int),
            None => find_last(s@, b) is None,
        },
{
    let mut i: usize = s.len();
    assert(s@.take(i as int) =~= s@);
    while i > 0
        invariant
            i <= s@.len(),
            find_last(s@, b) == find_last(s@.take(i as int), b),
        decreases i,
    {
        if s[i - 1] == b {
            assert(s@.take(i as int).last() == b);
            return Some(i - 1);
        }
        assert(s@.take(i as int).drop_last() =~= s@.take(i as int - 1));
        i = i - 1;
    }
    assert(s@.take(0) =~= Seq::<u8>::empty());
    None
}

/// True when the final path component of `name` ends in a `.gz` extension.
fn has_gz_ext(name: &[u8]) -> (r: bool)
    ensures
        r == spec_has_gz_ext(name@),
{
    let n: usize = name.len();
    let start: usize = match last_pos(name, 47u8) {
        Some(i) => {
            proof {
                lemma_find_last(name@, 47u8);
            }
            assert(i < n);
            i + 1
        },
        None => 0,
    };
    let comp: &[u8] = vstd::slice::slice_subrange(name, start, name.len());
    assert(comp@ =~= name@.subrange(component_start(name@), name@.len() as int));
    match last_pos(comp, 46u8) {
        Some(d) => {
            proof {
                lemma_find_last(comp@, 46u8);
            }
            if d >= 1 && comp.len() - d == 3 {
                let g = *vstd::slice::slice_index_get(comp, d + 1);
                let z = *vstd::slice::slice_index_get(comp, d + 2);
                let r = g == 103u8 && z == 122u8;
                proof {
                    if r {
                        assert(comp@.subrange(d + 1, comp@.len() as int) =~= seq![
                            103u8,
                            122u8,
                        ]);
                    }
                }
                r
            } else {
                false
            }
        },
        None => false,
    }
}

/// What the multi-member gzip decoder yields for the given bytes: the
/// decompressed bytes, or nothing when the stream is not well-formed gzip.
pub uninterp spec fn gunzip_of(data: Seq<u8>) -> Option<Seq<u8>>;

/// Relies on `flate2::read::MultiGzDecoder`: reading it to the end yields the
/// decompressed bytes of a well-formed multi-member gzip stream and fails on
/// a malformed one; the outcome depends on the input bytes alone.
#[verifier::external_body]
fn gunzip(data: &[u8]) -> (r: Option<Vec<u8>>)
    ensures
        (r is Some) <==> (gunzip_of(data@) is Some),
        r is Some ==> r.unwrap()@ == gunzip_of(data@).unwrap(),
{
    let mut dec = flate2::read::MultiGzDecoder::new(data);
    let mut out: Vec<u8> = Vec::new();
    match std::io::Read::read_to_end(&mut dec, &mut out) {
        Ok(_) => Some(out),
        Err(_) => None,
    }
}

/// The error of this library: the input claimed to be gzip but its stream
/// could not be decompressed.
#[derive(Clone, Copy, Debug, PartialEq, Eq, Structural)]
pub enum DecodeError {
    InvalidGzip,
}

/// The view of an optional source name.
pub open spec fn opt_name_view(name: Option<&Vec<u8>>) -> Option<Seq<u8>> {
    match name {
        Some(n) => Some(n@),
        None => None,
    }
}

/// The bytes the renderer consumes for a given raw source: decompressed when
/// a named source is classified as gzip (nothing when its stream is
/// malformed), the raw bytes themselves otherwise. Standard input (no name)
/// is never probed for gzip.
pub open spec fn spec_decode(data: Seq<u8>, name: Option<Seq<u8>>) -> Option<Seq<u8>> {
    match name {
        Some(nm) => if spec_is_gzipped(data, nm) {
            gunzip_of(data)
        } else {
            Some(data)
        },
        None => Some(data),
    }
}

/// Resolves the raw bytes of a source into the bytes to parse: a named
/// source classified as gzip (by magic bytes or `.gz` extension) is
/// decompressed; anything else passes through unchanged.
pub fn decode_input(data: Vec<u8>, name: Option<&Vec<u8>>) -> (r: Result<Vec<u8>, DecodeError>)
    ensures
        match r {
            Ok(out) => spec_decode(data@, opt_name_view(name)) == Some(out@),
            Err(e) => spec_decode(data@, opt_name_view(name)) is None && e
                == DecodeError::InvalidGzip,
        },
{
    match name {
        Some(nm) => {
            if is_gzipped(data.as_slice(), nm.as_slice()) {
                match gunzip(data.as_slice()) {
                    Some(out) => Ok(out),
                    None => Err(DecodeError::InvalidGzip),
                }
            } else {
                Ok(data)
            }
        },
        None => Ok(data),
    }
}

/// Classifies a source as gzip or plain from its first bytes and its name.
///
/// `magic` holds however many leading bytes of the source could be read
/// (possibly fewer than the probe size of 6); `name` holds the path the
/// source was opened from, empty for standard input.
pub fn is_gzipped(magic: &[u8], name: &[u8]) -> (r: bool)
    ensures
        r == spec_is_gzipped(magic@, name@),
{
    let from_magic = magic.len() >= 3 && {
        let a = *vstd::slice::slice_index_get(magic, 0);
        let b = *vstd::slice::slice_index_get(magic, 1);
        let c = *vstd::slice::slice_index_get(magic, 2);
        a == 0x1fu8 && b == 0x8bu8 && c == 0x08u8
    };
    from_magic || has_gz_ext(name)
}

} // verus!
