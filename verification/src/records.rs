//! Delimiter-tolerant record reader.
//!
//! The input bytes are split into lines at `\n`; each line is split into
//! fields at the configured single-byte delimiter; a `\r` that ends the last
//! field of a line (a `\r\n` line ending) is dropped. Records may have
//! differing field counts: no schema is enforced. A record holding a field
//! that is not valid UTF-8 cannot be tokenized into text and is silently
//! skipped; all other records are kept in input order.

use vstd::prelude::*;
use vstd::utf8::decode_utf8;
use vstd::utf8::valid_utf8;

verus! {

/// Splits `s` at every occurrence of `sep`. The result always holds at least
/// one (possibly empty) segment; empty segments are kept.
pub open spec fn split_bytes(s: Seq<u8>, sep: u8) -> Seq<Seq<u8>>
    decreases s.len(),
{
    if s.len() == 0 {
        seq![Seq::<u8>::empty()]
    } else if s.last() == sep {
        split_bytes(s.drop_last(), sep).push(Seq::<u8>::empty())
    } else {
        let p = split_bytes(s.drop_last(), sep);
        p.update(p.len() - 1, p.last().push(s.last()))
    }
}

pub proof fn lemma_split_bytes_nonempty(s: Seq<u8>, sep: u8)
    ensures
        split_bytes(s, sep).len() >= 1,
    decreases s.len(),
{
    if s.len() > 0 {
        lemma_split_bytes_nonempty(s.drop_last(), sep);
    }
}

/// A field with a trailing carriage return dropped.
pub open spec fn strip_cr(f: Seq<u8>) -> Seq<u8> {
    if f.len() > 0 && f.last() == 13u8 {
        f.drop_last()
    } else {
        f
    }
}

/// The fields of one line: split at the delimiter, with a carriage return
/// ending the last field dropped (a `\r\n` line ending).
pub open spec fn line_fields(line: Seq<u8>, delimiter: u8) -> Seq<Seq<u8>> {
    let fs = split_bytes(line, delimiter);
    fs.update(fs.len() - 1, strip_cr(fs.last()))
}

/// The lines of the input: split at `\n`, with a final empty segment (from a
/// trailing newline) dropped. Empty input has no lines.
pub open spec fn lines_of(data: Seq<u8>) -> Seq<Seq<u8>> {
    if data.len() == 0 {
        Seq::<Seq<u8>>::empty()
    } else {
        let segs = split_bytes(data, 10u8);
        if segs.last().len() == 0 {
            segs.drop_last()
        } else {
            segs
        }
    }
}

/// The raw records of the input: one per line, each a sequence of fields.
pub open spec fn spec_records(data: Seq<u8>, delimiter: u8) -> Seq<Seq<Seq<u8>>> {
    lines_of(data).map_values(|l: Seq<u8>| line_fields(l, delimiter))
}

/// Splits the input bytes into records of fields.
///
/// Lines are separated by `\n` (with `\r\n` tolerated); fields within a line
/// are separated by `delimiter`; field counts may differ between records.
pub fn parse_records(data: &[u8], delimiter: u8) -> (r: Vec<Vec<Vec<u8>>>)
    ensures
        r.deep_view() == spec_records(data@, delimiter),
{
    let n: usize = data.len();
    let mut records: Vec<Vec<Vec<u8>>> = Vec::new();
    let mut fields: Vec<Vec<u8>> = Vec::new();
    let mut cur: Vec<u8> = Vec::new();
    let mut i: usize = 0;
    proof {
        assert(data@.take(0) =~= Seq::<u8>::empty());
        assert(records.deep_view() =~= split_bytes(data@.take(0), 10u8).drop_last().map_values(
            |l: Seq<u8>| line_fields(l, delimiter),
        ));
        assert(fields.deep_view() =~= split_bytes(
            split_bytes(data@.take(0), 10u8).last(),
            delimiter,
        ).drop_last());
    }
    while i < n
        invariant
            i <= n,
            n == data@.len(),
            records.deep_view() == split_bytes(data@.take(i as int), 10u8).drop_last().map_values(
                |l: Seq<u8>| line_fields(l, delimiter),
            ),
            fields.deep_view() == split_bytes(
                split_bytes(data@.take(i as int), 10u8).last(),
                delimiter,
            ).drop_last(),
            cur@ == split_bytes(split_bytes(data@.take(i as int), 10u8).last(), delimiter).last(),
        decreases n - i,
    {
        let ghost prefix = data@.take(i as int);
        let ghost segs = split_bytes(prefix, 10u8);
        let ghost curf = split_bytes(segs.last(), delimiter);
        let c = *vstd::slice::slice_index_get(data, i);
        proof {
            lemma_split_bytes_nonempty(prefix, 10u8);
            lemma_split_bytes_nonempty(segs.last(), delimiter);
            assert(data@.take(i as int + 1).drop_last() =~= prefix);
            assert(data@.take(i as int + 1).last() == c);
        }
        let ghost prefix1 = data@.take(i as int + 1);
        if c == 10u8 {
            if cur.len() > 0 && cur[cur.len() - 1] == 13u8 {
                cur.pop();
                assert(cur@ =~= strip_cr(curf.last()));
            } else {
                assert(cur@ =~= strip_cr(curf.last()));
            }
            let ghost curv = cur@;
            fields.push(cur);
            proof {
                assert(fields.deep_view() =~~= curf.drop_last().push(curv));
                assert(fields.deep_view() =~= line_fields(segs.last(), delimiter));
            }
            let ghost fieldsv = fields.deep_view();
            cur = Vec::new();
            records.push(fields);
            fields = Vec::new();
            proof {
                let f = (|l: Seq<u8>| line_fields(l, delimiter));
                assert(split_bytes(prefix1, 10u8) =~= segs.push(Seq::<u8>::empty()));
                assert(split_bytes(prefix1, 10u8).drop_last() =~= segs);
                assert(records.deep_view() =~= segs.drop_last().map_values(f).push(fieldsv));
                assert(segs.drop_last().map_values(f).push(f(segs.last())) =~= segs.map_values(f));
                assert(records.deep_view() =~= segs.map_values(f));
                assert(split_bytes(split_bytes(prefix1, 10u8).last(), delimiter) =~= seq![
                    Seq::<u8>::empty(),
                ]);
                assert(fields.deep_view() =~= seq![Seq::<u8>::empty()].drop_last());
            }
        } else if c == delimiter {
            let ghost curv = cur@;
            fields.push(cur);
            cur = Vec::new();
            proof {
                assert(split_bytes(prefix1, 10u8) =~= segs.update(
                    segs.len() - 1,
                    segs.last().push(c),
                ));
                assert(split_bytes(prefix1, 10u8).drop_last() =~= segs.drop_last());
                assert(split_bytes(prefix1, 10u8).last() == segs.last().push(c));
                assert((segs.last().push(c)).drop_last() =~= segs.last());
                assert(split_bytes(segs.last().push(c), delimiter) =~= curf.push(
                    Seq::<u8>::empty(),
                ));
                assert(fields.deep_view() =~~= curf.drop_last().push(curv));
                assert(fields.deep_view() =~= curf.push(Seq::<u8>::empty()).drop_last());
            }
        } else {
            cur.push(c);
            proof {
                assert(split_bytes(prefix1, 10u8) =~= segs.update(
                    segs.len() - 1,
                    segs.last().push(c),
                ));
                assert(split_bytes(prefix1, 10u8).drop_last() =~= segs.drop_last());
                assert(split_bytes(prefix1, 10u8).last() == segs.last().push(c));
                assert((segs.last().push(c)).drop_last() =~= segs.last());
                assert(split_bytes(segs.last().push(c), delimiter) =~= curf.update(
                    curf.len() - 1,
                    curf.last().push(c),
                ));
                assert(split_bytes(segs.last().push(c), delimiter).drop_last() =~= curf.drop_last());
            }
        }
        i = i + 1;
    }
    proof {
        assert(data@.take(n as int) =~= data@);
    }
    let ghost segs = split_bytes(data@, 10u8);
    let ghost f = (|l: Seq<u8>| line_fields(l, delimiter));
    if n > 0 && *vstd::slice::slice_index_get(data, n - 1) != 10u8 {
        proof {
            lemma_split_bytes_nonempty(data@.drop_last(), 10u8);
            assert(segs.last().len() > 0);
            lemma_split_bytes_nonempty(segs.last(), delimiter);
        }
        let ghost curf = split_bytes(segs.last(), delimiter);
        if cur.len() > 0 && cur[cur.len() - 1] == 13u8 {
            cur.pop();
            assert(cur@ =~= strip_cr(curf.last()));
        } else {
            assert(cur@ =~= strip_cr(curf.last()));
        }
        let ghost curv = cur@;
        fields.push(cur);
        proof {
            assert(fields.deep_view() =~~= curf.drop_last().push(curv));
            assert(fields.deep_view() =~= line_fields(segs.last(), delimiter));
        }
        let ghost fieldsv = fields.deep_view();
        records.push(fields);
        proof {
            assert(lines_of(data@) =~= segs);
            assert(records.deep_view() =~= segs.drop_last().map_values(f).push(fieldsv));
            assert(segs.drop_last().map_values(f).push(f(segs.last())) =~= segs.map_values(f));
            assert(records.deep_view() =~= spec_records(data@, delimiter));
        }
    } else {
        proof {
            if n == 0 {
                assert(lines_of(data@) =~= Seq::<Seq<u8>>::empty());
                assert(records.deep_view() =~= spec_records(data@, delimiter));
            } else {
                lemma_split_bytes_nonempty(data@.drop_last(), 10u8);
                assert(segs.last().len() == 0);
                assert(lines_of(data@) =~= segs.drop_last());
                assert(records.deep_view() =~= spec_records(data@, delimiter));
            }
        }
    }
    records
}

/// True when every field of the record is valid UTF-8.
pub open spec fn record_valid(rec: Seq<Seq<u8>>) -> bool {
    forall|i: int| 0 <= i < rec.len() ==> valid_utf8(rec[i])
}

/// One raw record turned into text, field by field.
pub open spec fn decode_record(rec: Seq<Seq<u8>>) -> Seq<Seq<char>> {
    rec.map_values(|field: Seq<u8>| decode_utf8(field))
}

/// The raw records turned into text records, with every record that holds a
/// field of invalid UTF-8 silently skipped, in input order.
pub open spec fn decode_records(rs: Seq<Seq<Seq<u8>>>) -> Seq<Seq<Seq<char>>>
    decreases rs.len(),
{
    if rs.len() == 0 {
        Seq::<Seq<Seq<char>>>::empty()
    } else {
        let rest = decode_records(rs.drop_last());
        if record_valid(rs.last()) {
            rest.push(decode_record(rs.last()))
        } else {
            rest
        }
    }
}

/// Relies on `String::from_utf8`: it returns `Ok` exactly on valid UTF-8,
/// and then decodes the bytes per the UTF-8 encoding.
#[verifier::external_body]
fn utf8_field(b: &Vec<u8>) -> (r: Option<String>)
    ensures
        (r is Some) <==> valid_utf8(b@),
        r is Some ==> r.unwrap()@ == decode_utf8(b@),
{
    String::from_utf8(b.clone()).ok()
}

/// Turns raw byte records into text records, silently skipping every record
/// that holds a field of invalid UTF-8.
pub fn to_text_records(raw: &Vec<Vec<Vec<u8>>>) -> (r: Vec<Vec<String>>)
    ensures
        r.deep_view() == decode_records(raw.deep_view()),
{
    let n: usize = raw.len();
    let mut out: Vec<Vec<String>> = Vec::new();
    let mut i: usize = 0;
    proof {
        assert(raw.deep_view().take(0) =~= Seq::<Seq<Seq<u8>>>::empty());
        assert(out.deep_view() =~= decode_records(raw.deep_view().take(0)));
    }
    while i < n
        invariant
            i <= n,
            n == raw@.len(),
            raw.deep_view().len() == n,
            out.deep_view() == decode_records(raw.deep_view().take(i as int)),
        decreases n - i,
    {
        let ghost recv = raw.deep_view()[i as int];
        let rec: &Vec<Vec<u8>> = &raw[i];
        proof {
            assert(rec.deep_view() =~= recv);
        }
        let m: usize = rec.len();
        let mut text: Vec<String> = Vec::new();
        let mut ok = true;
        let mut j: usize = 0;
        proof {
            assert(text.deep_view() =~= recv.take(0).map_values(
                |field: Seq<u8>| decode_utf8(field),
            ));
        }
        while j < m && ok
            invariant
                j <= m,
                m == rec@.len(),
                recv == rec.deep_view(),
                recv.len() == m,
                ok ==> forall|k: int| 0 <= k < j ==> valid_utf8(recv[k]),
                ok ==> text.deep_view() == recv.take(j as int).map_values(
                    (|field: Seq<u8>| decode_utf8(field)),
                ),
                !ok ==> !record_valid(recv),
            decreases m - j,
        {
            proof {
                assert(rec@[j as int].deep_view() =~= rec@[j as int]@);
                assert(recv[j as int] == rec@[j as int]@);
            }
            match utf8_field(&rec[j]) {
                Some(s) => {
                    let ghost sv = s@;
                    text.push(s);
                    proof {
                        assert(text.deep_view() =~= recv.take(j as int).map_values(
                            (|field: Seq<u8>| decode_utf8(field)),
                        ).push(sv));
                        assert(recv.take(j as int + 1) =~= recv.take(j as int).push(
                            recv[j as int],
                        ));
                        assert(recv.take(j as int).map_values(
                            (|field: Seq<u8>| decode_utf8(field)),
                        ).push(decode_utf8(recv[j as int])) =~= recv.take(j as int + 1).map_values(
                            (|field: Seq<u8>| decode_utf8(field)),
                        ));
                    }
                },
                None => {
                    ok = false;
                },
            }
            j = j + 1;
        }
        proof {
            assert(raw.deep_view().take(i as int + 1).drop_last() =~= raw.deep_view().take(
                i as int,
            ));
            assert(raw.deep_view().take(i as int + 1).last() == recv);
        }
        if ok {
            proof {
                assert(j == m);
                assert(record_valid(recv));
                assert(recv.take(m as int) =~= recv);
                assert(text.deep_view() =~= decode_record(recv));
            }
            let ghost textv = text.deep_view();
            out.push(text);
            proof {
                assert(out.deep_view() =~= decode_records(raw.deep_view().take(i as int)).push(
                    textv,
                ));
            }
        }
        i = i + 1;
    }
    proof {
        assert(raw.deep_view().take(n as int) =~= raw.deep_view());
    }
    out
}

} // verus!
