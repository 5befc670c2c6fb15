use vstd::prelude::*;

use crate::modbus::file_record::{
    be16, be16_at, lemma_be16_round_trip, lemma_request_item_round_trip, lemma_response_item_round_trip,
    record_data_fits, request_item_at, request_item_bytes, response_item_bytes, ModbusPDUReadFileRecordRequestItem,
};

verus! {

/// The layouts a message body can have after the leading discriminant byte.
#[derive(Clone, Copy, PartialEq, Eq, Debug, Structural)]
pub enum BodyShape {
    /// No bytes at all.
    Empty,
    /// Two 16-bit fields.
    TwoWords,
    /// An 8-bit byte count, then that many bytes.
    Bytes,
    /// Two 16-bit fields, an 8-bit byte count, then that many bytes.
    TwoWordsBytes,
    /// An 8-bit byte count, then seven-byte file-record sub-requests filling it.
    FileRecordRequests,
    /// One 16-bit field.
    Word,
    /// A 16-bit byte count (two per value, plus two), a 16-bit value count, then the
    /// 16-bit values.
    Words,
    /// An 8-bit byte count, then file-record sub-responses filling it, each a data length
    /// (one more than its data), a reference type and the data.
    ReadFileRecords,
    /// An 8-bit byte count, then written file records filling it, each a reference type,
    /// a file number, a record number, a register count and the data.
    WriteFileRecords,
}

/// The content of a message body, with derived counts left out.
pub enum Body {
    Empty,
    TwoWords(u16, u16),
    Bytes(Seq<u8>),
    TwoWordsBytes(u16, u16, Seq<u8>),
    FileRecordRequests(Seq<ModbusPDUReadFileRecordRequestItem>),
    Word(u16),
    Words(Seq<u16>),
    ReadFileRecords(Seq<(u8, Seq<u8>)>),
    WriteFileRecords(Seq<(u8, u16, u16, Seq<u8>)>),
}

pub open spec fn shape_of_body(b: Body) -> BodyShape {
    match b {
        Body::Empty => BodyShape::Empty,
        Body::TwoWords(..) => BodyShape::TwoWords,
        Body::Bytes(..) => BodyShape::Bytes,
        Body::TwoWordsBytes(..) => BodyShape::TwoWordsBytes,
        Body::FileRecordRequests(..) => BodyShape::FileRecordRequests,
        Body::Word(..) => BodyShape::Word,
        Body::Words(..) => BodyShape::Words,
        Body::ReadFileRecords(..) => BodyShape::ReadFileRecords,
        Body::WriteFileRecords(..) => BodyShape::WriteFileRecords,
    }
}

/// Every derived count of the body fits in its field.
pub open spec fn body_fits(b: Body) -> bool {
    match b {
        Body::Bytes(v) => v.len() <= 255,
        Body::TwoWordsBytes(_, _, v) => v.len() <= 255,
        Body::FileRecordRequests(items) => 7 * items.len() <= 255,
        Body::Words(v) => 2 * v.len() + 2 <= 0xFFFF,
        Body::ReadFileRecords(v) => read_records_fit(v),
        Body::WriteFileRecords(v) => write_records_fit(v),
        _ => true,
    }
}

/// 16-bit values one after the other.
pub open spec fn words_bytes(v: Seq<u16>) -> Seq<u8>
    decreases v.len(),
{
    if v.len() == 0 {
        Seq::empty()
    } else {
        words_bytes(v.drop_last()) + be16(v.last())
    }
}

/// File-record sub-requests one after the other.
pub open spec fn items_bytes(v: Seq<ModbusPDUReadFileRecordRequestItem>) -> Seq<u8>
    decreases v.len(),
{
    if v.len() == 0 {
        Seq::empty()
    } else {
        items_bytes(v.drop_last()) + request_item_bytes(v.last())
    }
}

/// One file-record sub-response: its data length (one more than the data, for the
/// reference type), its reference type and its data.
pub open spec fn read_record_bytes(r: (u8, Seq<u8>)) -> Seq<u8> {
    seq![(r.1.len() + 1) as u8, r.0] + r.1
}

/// File-record sub-responses one after the other.
pub open spec fn read_records_bytes(v: Seq<(u8, Seq<u8>)>) -> Seq<u8>
    decreases v.len(),
{
    if v.len() == 0 {
        Seq::empty()
    } else {
        read_record_bytes(v[0]) + read_records_bytes(v.drop_first())
    }
}

/// Every sub-response's data length fits in a byte, and so does their total size.
pub open spec fn read_records_fit(v: Seq<(u8, Seq<u8>)>) -> bool {
    &&& forall|i: int| 0 <= i < v.len() ==> (#[trigger] v[i]).1.len() <= 254
    &&& read_records_bytes(v).len() <= 255
}

/// Decodes file-record sub-responses that fill all of `w`.
pub open spec fn parse_read_records(w: Seq<u8>) -> Result<Seq<(u8, Seq<u8>)>, crate::DecodeError>
    decreases w.len(),
{
    if w.len() == 0 {
        Ok(Seq::empty())
    } else if w[0] == 0 || w.len() < 1 + w[0] {
        Err(crate::DecodeError::LengthMismatch)
    } else {
        let item = (w[1], w.subrange(2, 1 + w[0]));
        match parse_read_records(w.subrange(1 + w[0], w.len() as int)) {
            Ok(rest) => Ok(seq![item] + rest),
            Err(e) => Err(e),
        }
    }
}

pub proof fn lemma_read_records_bytes_append(a: Seq<(u8, Seq<u8>)>, b: Seq<(u8, Seq<u8>)>)
    ensures
        read_records_bytes(a + b) == read_records_bytes(a) + read_records_bytes(b),
    decreases a.len(),
{
    if a.len() == 0 {
        assert(a + b =~= b);
    } else {
        assert((a + b).drop_first() =~= a.drop_first() + b);
        lemma_read_records_bytes_append(a.drop_first(), b);
        assert((a + b)[0] == a[0]);
    }
}

pub proof fn lemma_read_records_bytes_single(x: (u8, Seq<u8>))
    ensures
        read_records_bytes(seq![x]) == read_record_bytes(x),
{
    let s = seq![x];
    assert(s[0] == x);
    assert(s.drop_first() =~= Seq::<(u8, Seq<u8>)>::empty());
    assert(read_records_bytes(s.drop_first()) == Seq::<u8>::empty());
    assert(read_record_bytes(x) + Seq::<u8>::empty() =~= read_record_bytes(x));
}

proof fn lemma_read_records_round_trip(v: Seq<(u8, Seq<u8>)>)
    requires
        forall|i: int| 0 <= i < v.len() ==> (#[trigger] v[i]).1.len() <= 254,
    ensures
        parse_read_records(read_records_bytes(v)) == Ok::<Seq<(u8, Seq<u8>)>, crate::DecodeError>(v),
    decreases v.len(),
{
    if v.len() > 0 {
        let t = v.drop_first();
        assert forall|i: int| 0 <= i < t.len() implies (#[trigger] t[i]).1.len() <= 254 by {
            assert(t[i] == v[i + 1]);
        }
        lemma_read_records_round_trip(t);
        let w = read_records_bytes(v);
        let first = read_record_bytes(v[0]);
        let n = v[0].1.len();
        assert(v[0].1.len() <= 254);
        assert(w[0] == n + 1);
        assert(w[1] == v[0].0);
        assert(w.subrange(2, 2 + n as int) =~= v[0].1);
        assert(w.subrange(2 + n as int, w.len() as int) =~= read_records_bytes(t));
        assert(seq![v[0]] + t =~= v);
        let item = (w[1], w.subrange(2, 1 + w[0]));
        assert(item == v[0]);
    } else {
        assert(v =~= Seq::<(u8, Seq<u8>)>::empty());
    }
}

/// One written file record.
pub open spec fn write_record_bytes(r: (u8, u16, u16, Seq<u8>)) -> Seq<u8> {
    response_item_bytes(r.0, r.1, r.2, r.3)
}

/// Written file records one after the other.
pub open spec fn write_records_bytes(v: Seq<(u8, u16, u16, Seq<u8>)>) -> Seq<u8>
    decreases v.len(),
{
    if v.len() == 0 {
        Seq::empty()
    } else {
        write_record_bytes(v[0]) + write_records_bytes(v.drop_first())
    }
}

/// Every record's data is whole registers, and the records' total size fits in a byte.
pub open spec fn write_records_fit(v: Seq<(u8, u16, u16, Seq<u8>)>) -> bool {
    &&& forall|i: int| 0 <= i < v.len() ==> record_data_fits((#[trigger] v[i]).3)
    &&& write_records_bytes(v).len() <= 255
}

/// Decodes written file records that fill all of `w`.
pub open spec fn parse_write_records(w: Seq<u8>) -> Result<Seq<(u8, u16, u16, Seq<u8>)>, crate::DecodeError>
    decreases w.len(),
{
    if w.len() == 0 {
        Ok(Seq::empty())
    } else if w.len() < 7 || w.len() < 7 + 2 * be16_at(w, 5) {
        Err(crate::DecodeError::LengthMismatch)
    } else {
        let n = 7 + 2 * be16_at(w, 5);
        let item = (w[0], be16_at(w, 1), be16_at(w, 3), w.subrange(7, n));
        match parse_write_records(w.subrange(n, w.len() as int)) {
            Ok(rest) => Ok(seq![item] + rest),
            Err(e) => Err(e),
        }
    }
}

pub proof fn lemma_write_records_bytes_append(a: Seq<(u8, u16, u16, Seq<u8>)>, b: Seq<(u8, u16, u16, Seq<u8>)>)
    ensures
        write_records_bytes(a + b) == write_records_bytes(a) + write_records_bytes(b),
    decreases a.len(),
{
    if a.len() == 0 {
        assert(a + b =~= b);
    } else {
        assert((a + b).drop_first() =~= a.drop_first() + b);
        lemma_write_records_bytes_append(a.drop_first(), b);
        assert((a + b)[0] == a[0]);
    }
}

pub proof fn lemma_write_records_bytes_single(x: (u8, u16, u16, Seq<u8>))
    ensures
        write_records_bytes(seq![x]) == write_record_bytes(x),
{
    let s = seq![x];
    assert(s[0] == x);
    assert(s.drop_first() =~= Seq::<(u8, u16, u16, Seq<u8>)>::empty());
    assert(write_records_bytes(s.drop_first()) == Seq::<u8>::empty());
    assert(write_record_bytes(x) + Seq::<u8>::empty() =~= write_record_bytes(x));
}

proof fn lemma_write_records_step(x: (u8, u16, u16, Seq<u8>), rt: Seq<u8>)
    requires
        record_data_fits(x.3),
    ensures
        ({
            let w = write_record_bytes(x) + rt;
            let n = 7 + 2 * be16_at(w, 5);
            &&& w.len() >= 7
            &&& w.len() >= n
            &&& n == write_record_bytes(x).len()
            &&& (w[0], be16_at(w, 1), be16_at(w, 3), w.subrange(7, n)) == x
            &&& w.subrange(n, w.len() as int) == rt
        }),
{
    let w = write_record_bytes(x) + rt;
    lemma_response_item_round_trip(x.0, x.1, x.2, x.3, rt);
    let n = 7 + 2 * be16_at(w, 5);
    assert(n == 7 + x.3.len());
    assert(w.subrange(n, w.len() as int) =~= rt);
}

proof fn lemma_write_records_round_trip(v: Seq<(u8, u16, u16, Seq<u8>)>)
    requires
        forall|i: int| 0 <= i < v.len() ==> record_data_fits((#[trigger] v[i]).3),
    ensures
        parse_write_records(write_records_bytes(v)) == Ok::<Seq<(u8, u16, u16, Seq<u8>)>, crate::DecodeError>(v),
    decreases v.len(),
{
    if v.len() > 0 {
        let t = v.drop_first();
        assert forall|i: int| 0 <= i < t.len() implies record_data_fits((#[trigger] t[i]).3) by {
            assert(t[i] == v[i + 1]);
        }
        lemma_write_records_round_trip(t);
        let x = v[0];
        assert(record_data_fits(v[0].3));
        let rt = write_records_bytes(t);
        lemma_write_records_step(x, rt);
        assert(write_records_bytes(v) == write_record_bytes(x) + rt);
        assert(seq![x] + t =~= v);
    } else {
        assert(v =~= Seq::<(u8, u16, u16, Seq<u8>)>::empty());
    }
}

proof fn lemma_write_file_records_body_round_trip(v: Seq<(u8, u16, u16, Seq<u8>)>, tail: Seq<u8>)
    requires
        write_records_fit(v),
    ensures
        parse_body(BodyShape::WriteFileRecords, body_bytes(Body::WriteFileRecords(v)) + tail) == Ok::<
            (Body, nat),
            crate::DecodeError,
        >((Body::WriteFileRecords(v), body_bytes(Body::WriteFileRecords(v)).len())),
{
    let s = body_bytes(Body::WriteFileRecords(v)) + tail;
    let n = write_records_bytes(v).len();
    assert(s[0] == n);
    assert(s.subrange(1, 1 + n as int) =~= write_records_bytes(v));
    lemma_write_records_round_trip(v);
}

/// The wire bytes of a body, with each derived count computed from its collection.
pub open spec fn body_bytes(b: Body) -> Seq<u8> {
    match b {
        Body::Empty => Seq::empty(),
        Body::TwoWords(x, y) => be16(x) + be16(y),
        Body::Bytes(v) => seq![v.len() as u8] + v,
        Body::TwoWordsBytes(x, y, v) => be16(x) + be16(y) + seq![v.len() as u8] + v,
        Body::FileRecordRequests(items) => seq![(7 * items.len()) as u8] + items_bytes(items),
        Body::Word(x) => be16(x),
        Body::Words(v) => be16((2 * v.len() + 2) as u16) + be16(v.len() as u16) + words_bytes(v),
        Body::ReadFileRecords(v) => seq![read_records_bytes(v).len() as u8] + read_records_bytes(v),
        Body::WriteFileRecords(v) => seq![write_records_bytes(v).len() as u8] + write_records_bytes(v),
    }
}

/// Decodes a body of the given shape from the front of `s`: the body and the number of
/// bytes it took, or why it could not be read.
pub open spec fn parse_body(shape: BodyShape, s: Seq<u8>) -> Result<(Body, nat), crate::DecodeError> {
    match shape {
        BodyShape::Empty => Ok((Body::Empty, 0)),
        BodyShape::TwoWords => if s.len() < 4 {
            Err(crate::DecodeError::TruncatedInput)
        } else {
            Ok((Body::TwoWords(be16_at(s, 0), be16_at(s, 2)), 4))
        },
        BodyShape::Bytes => if s.len() < 1 || s.len() < 1 + s[0] {
            Err(crate::DecodeError::TruncatedInput)
        } else {
            Ok((Body::Bytes(s.subrange(1, 1 + s[0])), (1 + s[0]) as nat))
        },
        BodyShape::TwoWordsBytes => if s.len() < 5 || s.len() < 5 + s[4] {
            Err(crate::DecodeError::TruncatedInput)
        } else {
            Ok(
                (
                    Body::TwoWordsBytes(be16_at(s, 0), be16_at(s, 2), s.subrange(5, 5 + s[4])),
                    (5 + s[4]) as nat,
                ),
            )
        },
        BodyShape::FileRecordRequests => if s.len() < 1 || s.len() < 1 + s[0] {
            Err(crate::DecodeError::TruncatedInput)
        } else if s[0] % 7 != 0 {
            Err(crate::DecodeError::LengthMismatch)
        } else {
            Ok(
                (
                    Body::FileRecordRequests(
                        Seq::new((s[0] / 7) as nat, |i: int| request_item_at(s, 1 + 7 * i)),
                    ),
                    (1 + s[0]) as nat,
                ),
            )
        },
        BodyShape::Word => if s.len() < 2 {
            Err(crate::DecodeError::TruncatedInput)
        } else {
            Ok((Body::Word(be16_at(s, 0)), 2))
        },
        BodyShape::Words => if s.len() < 4 {
            Err(crate::DecodeError::TruncatedInput)
        } else if be16_at(s, 0) != 2 * be16_at(s, 2) + 2 {
            Err(crate::DecodeError::LengthMismatch)
        } else if s.len() < 4 + 2 * be16_at(s, 2) {
            Err(crate::DecodeError::TruncatedInput)
        } else {
            Ok(
                (
                    Body::Words(Seq::new(be16_at(s, 2) as nat, |i: int| be16_at(s, 4 + 2 * i))),
                    (4 + 2 * be16_at(s, 2)) as nat,
                ),
            )
        },
        BodyShape::ReadFileRecords => if s.len() < 1 || s.len() < 1 + s[0] {
            Err(crate::DecodeError::TruncatedInput)
        } else {
            match parse_read_records(s.subrange(1, 1 + s[0])) {
                Ok(v) => Ok((Body::ReadFileRecords(v), (1 + s[0]) as nat)),
                Err(e) => Err(e),
            }
        },
        BodyShape::WriteFileRecords => if s.len() < 1 || s.len() < 1 + s[0] {
            Err(crate::DecodeError::TruncatedInput)
        } else {
            match parse_write_records(s.subrange(1, 1 + s[0])) {
                Ok(v) => Ok((Body::WriteFileRecords(v), (1 + s[0]) as nat)),
                Err(e) => Err(e),
            }
        },
    }
}

pub proof fn lemma_words_bytes(v: Seq<u16>)
    ensures
        words_bytes(v).len() == 2 * v.len(),
        forall|i: int|
            0 <= i < v.len() ==> #[trigger] words_bytes(v).subrange(2 * i, 2 * i + 2) == be16(v[i]),
    decreases v.len(),
{
    if v.len() > 0 {
        let p = v.drop_last();
        lemma_words_bytes(p);
        let w = words_bytes(v);
        assert forall|i: int| 0 <= i < v.len() implies #[trigger] w.subrange(2 * i, 2 * i + 2) == be16(v[i]) by {
            if i < p.len() {
                assert(w.subrange(2 * i, 2 * i + 2) =~= words_bytes(p).subrange(2 * i, 2 * i + 2));
                assert(p[i] == v[i]);
            } else {
                assert(w.subrange(2 * i, 2 * i + 2) =~= be16(v.last()));
            }
        }
    }
}

pub proof fn lemma_items_bytes(v: Seq<ModbusPDUReadFileRecordRequestItem>)
    ensures
        items_bytes(v).len() == 7 * v.len(),
        forall|i: int|
            0 <= i < v.len() ==> #[trigger] items_bytes(v).subrange(7 * i, 7 * i + 7)
                == request_item_bytes(v[i]),
    decreases v.len(),
{
    if v.len() > 0 {
        let p = v.drop_last();
        lemma_items_bytes(p);
        let w = items_bytes(v);
        assert forall|i: int| 0 <= i < v.len() implies #[trigger] w.subrange(7 * i, 7 * i + 7)
            == request_item_bytes(v[i]) by {
            if i < p.len() {
                assert(w.subrange(7 * i, 7 * i + 7) =~= items_bytes(p).subrange(7 * i, 7 * i + 7));
                assert(p[i] == v[i]);
            } else {
                assert(w.subrange(7 * i, 7 * i + 7) =~= request_item_bytes(v.last()));
            }
        }
    }
}

proof fn lemma_be16_at_of(s: Seq<u8>, k: int, x: u16)
    requires
        0 <= k,
        k + 2 <= s.len(),
        s.subrange(k, k + 2) == be16(x),
    ensures
        be16_at(s, k) == x,
{
    assert(s[k] == s.subrange(k, k + 2)[0]);
    assert(s[k + 1] == s.subrange(k, k + 2)[1]);
    lemma_be16_round_trip(x);
}

proof fn lemma_read_file_records_body_round_trip(v: Seq<(u8, Seq<u8>)>, tail: Seq<u8>)
    requires
        read_records_fit(v),
    ensures
        parse_body(BodyShape::ReadFileRecords, body_bytes(Body::ReadFileRecords(v)) + tail) == Ok::<
            (Body, nat),
            crate::DecodeError,
        >((Body::ReadFileRecords(v), body_bytes(Body::ReadFileRecords(v)).len())),
{
    let s = body_bytes(Body::ReadFileRecords(v)) + tail;
    let n = read_records_bytes(v).len();
    assert(s[0] == n);
    assert(s.subrange(1, 1 + n as int) =~= read_records_bytes(v));
    lemma_read_records_round_trip(v);
}

/// A body is decoded back from its bytes, whatever follows them, when its derived counts
/// fit their fields.
pub proof fn lemma_body_round_trip(b: Body, tail: Seq<u8>)
    requires
        body_fits(b),
    ensures
        parse_body(shape_of_body(b), body_bytes(b) + tail) == Ok::<(Body, nat), crate::DecodeError>(
            (b, body_bytes(b).len()),
        ),
{
    let e = body_bytes(b);
    let s = e + tail;
    match b {
        Body::Empty => {},
        Body::TwoWords(x, y) => {
            assert(s.subrange(0, 2) =~= be16(x));
            assert(s.subrange(2, 4) =~= be16(y));
            lemma_be16_at_of(s, 0, x);
            lemma_be16_at_of(s, 2, y);
        },
        Body::Bytes(v) => {
            assert(s[0] == v.len());
            assert(s.subrange(1, 1 + v.len() as int) =~= v);
        },
        Body::TwoWordsBytes(x, y, v) => {
            assert(s.subrange(0, 2) =~= be16(x));
            assert(s.subrange(2, 4) =~= be16(y));
            lemma_be16_at_of(s, 0, x);
            lemma_be16_at_of(s, 2, y);
            assert(s[4] == v.len());
            assert(s.subrange(5, 5 + v.len() as int) =~= v);
        },
        Body::FileRecordRequests(items) => {
            lemma_items_bytes(items);
            let n = items.len();
            assert(s[0] == 7 * n);
            assert((7 * n) % 7 == 0 && (7 * n) / 7 == n) by (nonlinear_arith);
            let parsed = Seq::new(n, |i: int| request_item_at(s, 1 + 7 * i));
            assert forall|i: int| 0 <= i < n implies parsed[i] == items[i] by {
                assert(0 <= 7 * i && 7 * i + 7 <= 7 * n) by (nonlinear_arith)
                    requires
                        0 <= i < n,
                ;
                assert(s.subrange(1 + 7 * i, 1 + 7 * i + 7) =~= items_bytes(items).subrange(
                    7 * i,
                    7 * i + 7,
                ));
                lemma_request_item_round_trip(items[i], s, 1 + 7 * i);
            }
            assert(parsed =~= items);
        },
        Body::Word(x) => {
            assert(s.subrange(0, 2) =~= be16(x));
            lemma_be16_at_of(s, 0, x);
        },
        Body::Words(v) => {
            lemma_words_bytes(v);
            let n = v.len();
            assert(s.subrange(0, 2) =~= be16((2 * n + 2) as u16));
            assert(s.subrange(2, 4) =~= be16(n as u16));
            lemma_be16_at_of(s, 0, (2 * n + 2) as u16);
            lemma_be16_at_of(s, 2, n as u16);
            let parsed = Seq::new(n, |i: int| be16_at(s, 4 + 2 * i));
            assert forall|i: int| 0 <= i < n implies parsed[i] == v[i] by {
                assert(s.subrange(4 + 2 * i, 4 + 2 * i + 2) =~= words_bytes(v).subrange(2 * i, 2 * i + 2));
                lemma_be16_at_of(s, 4 + 2 * i, v[i]);
            }
            assert(parsed =~= v);
        },
        Body::ReadFileRecords(v) => lemma_read_file_records_body_round_trip(v, tail),
        Body::WriteFileRecords(v) => lemma_write_file_records_body_round_trip(v, tail),
    }
}

/// The byte count written before a byte array is the array's length, and decoding the
/// bytes back gives an array of that same length.
pub proof fn lemma_byte_count_is_value_length(v: Seq<u8>, tail: Seq<u8>)
    requires
        v.len() <= 255,
    ensures
        body_bytes(Body::Bytes(v))[0] == v.len(),
        parse_body(BodyShape::Bytes, body_bytes(Body::Bytes(v)) + tail) matches Ok((Body::Bytes(w), _))
            && w.len() == v.len(),
{
    lemma_body_round_trip(Body::Bytes(v), tail);
}

/// A value that stands for a message body.
pub trait BodyValue {
    spec fn body(&self) -> Body;
}

/// `r` is what decoding a body of the given shape from `rest` gives: on success, a
/// value standing for the decoded body, with the cursor moved from `start` to `end`
/// past it; otherwise the same error.
pub open spec fn parsed_body<T: BodyValue>(
    r: Result<T, crate::DecodeError>,
    shape: BodyShape,
    rest: Seq<u8>,
    start: nat,
    end: nat,
) -> bool {
    match parse_body(shape, rest) {
        Ok((b, n)) => r is Ok && r->Ok_0.body() == b && end == start + n,
        Err(e) => r == Err::<T, crate::DecodeError>(e),
    }
}

} // verus!
