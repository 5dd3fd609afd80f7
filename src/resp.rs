//! The RESP wire format: the frame model, what decoding and encoding mean on
//! bytes, and the frame-level entry point `Type`.
use vstd::prelude::*;
use vstd::utf8::valid_utf8;

use crate::array::Array;
use crate::bulkstring::BulkString;
use crate::simple_string::SimpleString;
use crate::text::{
    crlf, decimal, is_ascii_bytes, lemma_ascii_valid_utf8, lemma_decimal_shape,
    lemma_parse_decimal, parse_unsigned, parse_unsigned_bytes, is_digit, is_utf8, CR, LF, PLUS,
};

verus! {

pub const STAR: u8 = 42;

pub const DOLLAR: u8 = 36;

/// Why a byte buffer is not a frame.
#[derive(Debug, Clone, Copy, PartialEq, Eq, Structural)]
pub enum RespError {
    /// A header line is not UTF-8.
    Utf8Error,
    /// A length header does not hold an unsigned number.
    ParseIntError,
    /// The buffer ends where a length header should start.
    MissingLength,
    /// The payload of a bulk string, or its terminator, is cut short.
    MissingData,
    /// The first byte names no frame type.
    InvalidType,
}

/// What a frame carries.
pub enum Frame {
    Simple(Seq<u8>),
    Bulk(Seq<u8>),
    Array(Seq<Seq<u8>>),
}

/// Values that have a wire form.
pub trait ToRedisBytes {
    spec fn redis_bytes(&self) -> Seq<u8>;

    fn to_redis_bytes(&self) -> (r: Vec<u8>)
        ensures
            r@ == self.redis_bytes(),
    ;
}

/// Where the line that starts at `pos` ends: the first `\r\n` at or after
/// `pos`, or the end of the buffer.
pub open spec fn line_end(buf: Seq<u8>, pos: int) -> int
    decreases buf.len() - pos,
{
    if pos < 0 || pos + 1 >= buf.len() {
        buf.len() as int
    } else if buf[pos] == CR && buf[pos + 1] == LF {
        pos
    } else {
        line_end(buf, pos + 1)
    }
}

/// Text that can stand on one line: it holds no `\r\n`.
pub open spec fn is_line_text(s: Seq<u8>) -> bool {
    forall|i: int| 0 <= i < s.len() - 1 ==> !(#[trigger] s[i] == CR && s[i + 1] == LF)
}

/// The number on a header line `<tag><digits>`.
pub open spec fn header_value(line: Seq<u8>, tag: u8) -> Result<nat, RespError> {
    if !valid_utf8(line) {
        Err(RespError::Utf8Error)
    } else if line.len() > 0 && line[0] == tag {
        match parse_unsigned(line.drop_first(), usize::MAX as nat) {
            Some(n) => Ok(n),
            None => Err(RespError::ParseIntError),
        }
    } else {
        Err(RespError::ParseIntError)
    }
}

/// A bulk string `$<len>\r\n<len bytes>\r\n` read at `pos`: its payload and
/// where the next frame starts. A position past the end means that no line
/// is left.
pub open spec fn decode_bulk_at(buf: Seq<u8>, pos: int) -> Result<(Seq<u8>, int), RespError> {
    if pos > buf.len() {
        Err(RespError::MissingLength)
    } else {
        let e = line_end(buf, pos);
        match header_value(buf.subrange(pos, e), DOLLAR) {
            Err(x) => Err(x),
            Ok(n) => {
                let start = e + 2;
                let stop = start + n;
                if stop + 2 <= buf.len() && buf[stop] == CR && buf[stop + 1] == LF {
                    Ok((buf.subrange(start, stop), stop + 2))
                } else {
                    Err(RespError::MissingData)
                }
            },
        }
    }
}

/// `remaining` more bulk strings read from `pos`, appended to `acc`.
pub open spec fn decode_bulks(buf: Seq<u8>, pos: int, remaining: nat, acc: Seq<Seq<u8>>) -> Result<
    (Seq<Seq<u8>>, int),
    RespError,
>
    decreases remaining,
{
    if remaining == 0 {
        Ok((acc, pos))
    } else {
        match decode_bulk_at(buf, pos) {
            Err(x) => Err(x),
            Ok((d, next)) => decode_bulks(buf, next, (remaining - 1) as nat, acc.push(d)),
        }
    }
}

/// An array `*<n>\r\n` followed by `n` bulk strings.
pub open spec fn decode_array(buf: Seq<u8>) -> Result<Seq<Seq<u8>>, RespError> {
    let e = line_end(buf, 0);
    match header_value(buf.subrange(0, e), STAR) {
        Err(x) => Err(x),
        Ok(n) => match decode_bulks(buf, e + 2, n, Seq::empty()) {
            Ok((items, _)) => Ok(items),
            Err(x) => Err(x),
        },
    }
}

/// A simple string `+<text>\r\n`: the text of its first line.
pub open spec fn decode_simple(buf: Seq<u8>) -> Result<Seq<u8>, RespError> {
    if buf.len() == 0 || buf[0] != PLUS {
        Err(RespError::InvalidType)
    } else {
        let text = buf.subrange(1, line_end(buf, 0));
        if valid_utf8(text) {
            Ok(text)
        } else {
            Err(RespError::Utf8Error)
        }
    }
}

/// A frame, chosen by its first byte.
pub open spec fn decode_frame(buf: Seq<u8>) -> Result<Frame, RespError> {
    if buf.len() == 0 {
        Err(RespError::InvalidType)
    } else if buf[0] == STAR {
        match decode_array(buf) {
            Ok(items) => Ok(Frame::Array(items)),
            Err(x) => Err(x),
        }
    } else if buf[0] == DOLLAR {
        match decode_bulk_at(buf, 0) {
            Ok((d, _)) => Ok(Frame::Bulk(d)),
            Err(x) => Err(x),
        }
    } else if buf[0] == PLUS {
        match decode_simple(buf) {
            Ok(t) => Ok(Frame::Simple(t)),
            Err(x) => Err(x),
        }
    } else {
        Err(RespError::InvalidType)
    }
}

pub open spec fn bulk_bytes(d: Seq<u8>) -> Seq<u8> {
    seq![DOLLAR] + decimal(d.len()) + crlf() + d + crlf()
}

pub open spec fn bulks_bytes(items: Seq<Seq<u8>>) -> Seq<u8>
    decreases items.len(),
{
    if items.len() == 0 {
        Seq::empty()
    } else {
        bulks_bytes(items.drop_last()) + bulk_bytes(items.last())
    }
}

pub open spec fn array_bytes(items: Seq<Seq<u8>>) -> Seq<u8> {
    seq![STAR] + decimal(items.len()) + crlf() + bulks_bytes(items)
}

pub open spec fn simple_bytes(text: Seq<u8>) -> Seq<u8> {
    seq![PLUS] + text + crlf()
}

pub open spec fn encode_frame(f: Frame) -> Seq<u8> {
    match f {
        Frame::Simple(t) => simple_bytes(t),
        Frame::Bulk(d) => bulk_bytes(d),
        Frame::Array(items) => array_bytes(items),
    }
}

/// A frame that the wire can carry: simple text is UTF-8 on one line, and
/// every length fits in `usize`.
pub open spec fn frame_wf(f: Frame) -> bool {
    match f {
        Frame::Simple(t) => valid_utf8(t) && is_line_text(t),
        Frame::Bulk(d) => d.len() <= usize::MAX,
        Frame::Array(items) => items.len() <= usize::MAX && forall|i: int|
            0 <= i < items.len() ==> (#[trigger] items[i]).len() <= usize::MAX,
    }
}

proof fn lemma_line_end(buf: Seq<u8>, pos: int, end: int)
    requires
        0 <= pos <= end,
        end + 1 < buf.len(),
        buf[end] == CR,
        buf[end + 1] == LF,
        forall|i: int| pos <= i < end ==> !(#[trigger] buf[i] == CR && buf[i + 1] == LF),
    ensures
        line_end(buf, pos) == end,
    decreases end - pos,
{
    if pos < end {
        lemma_line_end(buf, pos + 1, end);
    }
}

/// A header line `<tag><decimal n>\r\n` at `pos` reads back as `n`.
proof fn lemma_header_round_trip(buf: Seq<u8>, pos: int, tag: u8, n: nat)
    requires
        0 <= pos,
        tag < 128,
        tag != CR,
        n <= usize::MAX,
        pos + decimal(n).len() + 3 <= buf.len(),
        buf.subrange(pos, pos + decimal(n).len() + 3) == seq![tag] + decimal(n) + crlf(),
    ensures
        line_end(buf, pos) == pos + decimal(n).len() + 1,
        header_value(buf.subrange(pos, pos + decimal(n).len() + 1), tag) == Ok::<nat, RespError>(n),
{
    let dn = decimal(n);
    let hdr = seq![tag] + dn + crlf();
    let e = pos + dn.len() + 1;
    lemma_decimal_shape(n);
    assert forall|k: int| 0 <= k < hdr.len() implies buf[pos + k] == #[trigger] hdr[k] by {
        assert(buf.subrange(pos, pos + dn.len() + 3)[k] == buf[pos + k]);
    }
    assert forall|i: int| pos <= i < e implies !(#[trigger] buf[i] == CR && buf[i + 1] == LF) by {
        assert(buf[i] == hdr[i - pos]);
        if i > pos {
            assert(hdr[i - pos] == dn[i - pos - 1]);
            assert(is_digit(dn[i - pos - 1]));
        }
    }
    assert(buf[e] == hdr[e - pos]);
    assert(buf[e + 1] == hdr[e + 1 - pos]);
    lemma_line_end(buf, pos, e);
    let line = buf.subrange(pos, e);
    assert(line =~= seq![tag] + dn);
    assert(is_ascii_bytes(line)) by {
        assert forall|i: int| 0 <= i < line.len() implies #[trigger] line[i] < 128 by {
            if i > 0 {
                assert(line[i] == dn[i - 1]);
            }
        }
    }
    lemma_ascii_valid_utf8(line);
    assert(line.drop_first() =~= dn);
    lemma_parse_decimal(n, usize::MAX as nat);
}

/// A bulk string written at `pos` reads back as its payload.
proof fn lemma_bulk_round_trip(buf: Seq<u8>, pos: int, d: Seq<u8>)
    requires
        0 <= pos,
        d.len() <= usize::MAX,
        pos + bulk_bytes(d).len() <= buf.len(),
        buf.subrange(pos, pos + bulk_bytes(d).len()) == bulk_bytes(d),
    ensures
        decode_bulk_at(buf, pos) == Ok::<(Seq<u8>, int), RespError>((d, pos + bulk_bytes(d).len())),
{
    let n = d.len() as int;
    let dn = decimal(d.len());
    let b = bulk_bytes(d);
    let hl = dn.len() + 3;
    assert forall|k: int| 0 <= k < b.len() implies buf[pos + k] == #[trigger] b[k] by {
        assert(buf.subrange(pos, pos + b.len())[k] == buf[pos + k]);
    }
    assert(buf.subrange(pos, pos + hl) =~= seq![DOLLAR] + dn + crlf()) by {
        assert forall|k: int| 0 <= k < hl implies #[trigger] buf.subrange(pos, pos + hl)[k] == (seq![DOLLAR] + dn + crlf())[k] by {
            assert(buf[pos + k] == b[k]);
        }
    }
    lemma_header_round_trip(buf, pos, DOLLAR, d.len());
    let start = pos + hl;
    let stop = start + n;
    assert(buf[stop] == b[hl + n]);
    assert(buf[stop + 1] == b[hl + n + 1]);
    assert(buf.subrange(start, stop) =~= d) by {
        assert forall|k: int| 0 <= k < n implies #[trigger] buf.subrange(start, stop)[k] == d[k] by {
            assert(buf[start + k] == b[hl + k]);
        }
    }
}

proof fn lemma_bulks_prefix(items: Seq<Seq<u8>>, j: int)
    requires
        0 <= j <= items.len(),
    ensures
        bulks_bytes(items.subrange(0, j)).len() <= bulks_bytes(items).len(),
        bulks_bytes(items).subrange(0, bulks_bytes(items.subrange(0, j)).len() as int) == bulks_bytes(
            items.subrange(0, j),
        ),
    decreases items.len(),
{
    if j == items.len() {
        assert(items.subrange(0, j) =~= items);
        assert(bulks_bytes(items).subrange(0, bulks_bytes(items).len() as int) =~= bulks_bytes(items));
    } else {
        let t = items.drop_last();
        lemma_bulks_prefix(t, j);
        assert(t.subrange(0, j) =~= items.subrange(0, j));
        let p = bulks_bytes(items.subrange(0, j));
        assert(bulks_bytes(items) == bulks_bytes(t) + bulk_bytes(items.last()));
        assert(bulks_bytes(items).subrange(0, p.len() as int) =~= bulks_bytes(t).subrange(0, p.len() as int));
    }
}

proof fn lemma_bulks_step(items: Seq<Seq<u8>>, i: int)
    requires
        0 <= i < items.len(),
    ensures
        bulks_bytes(items.subrange(0, i + 1)) == bulks_bytes(items.subrange(0, i)) + bulk_bytes(items[i]),
{
    assert(items.subrange(0, i + 1).drop_last() =~= items.subrange(0, i));
}

/// The bulk strings written from `base` read back one by one.
proof fn lemma_bulks_round_trip(buf: Seq<u8>, base: int, items: Seq<Seq<u8>>, i: int)
    requires
        0 <= base,
        0 <= i <= items.len(),
        forall|k: int| 0 <= k < items.len() ==> (#[trigger] items[k]).len() <= usize::MAX,
        base + bulks_bytes(items).len() <= buf.len(),
        buf.subrange(base, base + bulks_bytes(items).len()) == bulks_bytes(items),
    ensures
        decode_bulks(
            buf,
            base + bulks_bytes(items.subrange(0, i)).len(),
            (items.len() - i) as nat,
            items.subrange(0, i),
        ) == Ok::<(Seq<Seq<u8>>, int), RespError>((items, base + bulks_bytes(items).len())),
    decreases items.len() - i,
{
    if i == items.len() {
        assert(items.subrange(0, i) =~= items);
    } else {
        let all = bulks_bytes(items);
        let before = bulks_bytes(items.subrange(0, i));
        let through = bulks_bytes(items.subrange(0, i + 1));
        let d = items[i];
        lemma_bulks_step(items, i);
        lemma_bulks_prefix(items, i + 1);
        let p = base + before.len();
        assert(buf.subrange(p, p + bulk_bytes(d).len()) =~= bulk_bytes(d)) by {
            assert forall|k: int| 0 <= k < bulk_bytes(d).len() implies #[trigger] buf.subrange(p, p + bulk_bytes(d).len())[k] == bulk_bytes(d)[k] by {
                assert(buf.subrange(base, base + all.len())[before.len() + k] == buf[p + k]);
                assert(all.subrange(0, through.len() as int)[before.len() + k] == all[before.len() + k]);
                assert(through[before.len() + k] == bulk_bytes(d)[k]);
            }
        }
        lemma_bulk_round_trip(buf, p, d);
        assert(items.subrange(0, i).push(d) =~= items.subrange(0, i + 1));
        lemma_bulks_round_trip(buf, base, items, i + 1);
    }
}

/// Decoding the bytes of a well-formed frame gives the frame back.
pub proof fn lemma_frame_round_trip(f: Frame)
    requires
        frame_wf(f),
    ensures
        decode_frame(encode_frame(f)) == Ok::<Frame, RespError>(f),
{
    let buf = encode_frame(f);
    match f {
        Frame::Simple(t) => {
            let e = t.len() + 1 as int;
            assert(buf[0] == PLUS);
            assert forall|i: int| 0 <= i < e implies !(#[trigger] buf[i] == CR && buf[i + 1] == LF) by {
                if i > 0 {
                    assert(buf[i] == t[i - 1]);
                    if i < t.len() {
                        assert(buf[i + 1] == t[i]);
                        assert(!(t[i - 1] == CR && t[i] == LF));
                    } else {
                        assert(buf[i + 1] == CR);
                    }
                }
            }
            assert(buf[e] == CR);
            assert(buf[e + 1] == LF);
            lemma_line_end(buf, 0, e);
            assert(buf.subrange(1, e) =~= t);
        },
        Frame::Bulk(d) => {
            assert(buf.subrange(0, buf.len() as int) =~= buf);
            lemma_bulk_round_trip(buf, 0, d);
            assert(buf[0] == DOLLAR);
        },
        Frame::Array(items) => {
            let n = items.len();
            let dn = decimal(n);
            let hl = dn.len() + 3 as int;
            assert(buf[0] == STAR);
            assert(buf.subrange(0, hl) =~= seq![STAR] + dn + crlf());
            lemma_header_round_trip(buf, 0, STAR, n);
            assert(buf.subrange(hl, hl + bulks_bytes(items).len()) =~= bulks_bytes(items));
            assert(items.subrange(0, 0) =~= Seq::<Seq<u8>>::empty());
            lemma_bulks_round_trip(buf, hl, items, 0);
        },
    }
}

/// Where the line that starts at `pos` ends.
pub(crate) fn find_line_end(buf: &[u8], pos: usize) -> (e: usize)
    requires
        pos <= buf@.len(),
    ensures
        e == line_end(buf@, pos as int),
        pos <= e <= buf@.len(),
        e < buf@.len() ==> e + 1 < buf@.len() && buf@[e as int] == CR && buf@[e + 1] == LF,
{
    let mut i: usize = pos;
    while buf.len() - i > 1
        invariant
            pos <= i <= buf@.len(),
            line_end(buf@, pos as int) == line_end(buf@, i as int),
        decreases buf@.len() - i,
    {
        if buf[i] == CR && buf[i + 1] == LF {
            return i;
        }
        i = i + 1;
    }
    proof {
        lemma_line_end_bounds(buf@, pos as int);
    }
    buf.len()
}

proof fn lemma_line_end_bounds(buf: Seq<u8>, pos: int)
    requires
        0 <= pos <= buf.len(),
    ensures
        pos <= line_end(buf, pos) <= buf.len(),
    decreases buf.len() - pos,
{
    if pos + 1 < buf.len() && !(buf[pos] == CR && buf[pos + 1] == LF) {
        lemma_line_end_bounds(buf, pos + 1);
    }
}

/// The number on the header line `buf[pos..e]`.
pub(crate) fn read_header(buf: &[u8], pos: usize, e: usize, tag: u8) -> (r: Result<usize, RespError>)
    requires
        pos <= e <= buf@.len(),
    ensures
        match r {
            Ok(n) => header_value(buf@.subrange(pos as int, e as int), tag) == Ok::<nat, RespError>(n as nat),
            Err(x) => header_value(buf@.subrange(pos as int, e as int), tag) == Err::<nat, RespError>(x),
        },
{
    let line = vstd::slice::slice_subrange(buf, pos, e);
    if !is_utf8(line) {
        return Err(RespError::Utf8Error);
    }
    if line.len() == 0 || line[0] != tag {
        return Err(RespError::ParseIntError);
    }
    let digits = vstd::slice::slice_subrange(line, 1, line.len());
    assert(digits@ =~= line@.drop_first());
    match parse_unsigned_bytes(digits, usize::MAX as u64) {
        Some(n) => Ok(n as usize),
        None => Err(RespError::ParseIntError),
    }
}

/// Reads the bulk string at `pos`: its payload and where the next frame starts.
pub(crate) fn read_bulk(buf: &[u8], pos: usize) -> (r: Result<(Vec<u8>, usize), RespError>)
    requires
        pos <= buf@.len(),
    ensures
        match r {
            Ok((d, next)) => decode_bulk_at(buf@, pos as int) == Ok::<(Seq<u8>, int), RespError>(
                (d@, next as int),
            ),
            Err(x) => decode_bulk_at(buf@, pos as int) == Err::<(Seq<u8>, int), RespError>(x),
        },
{
    let e = find_line_end(buf, pos);
    let n = match read_header(buf, pos, e, DOLLAR) {
        Ok(n) => n,
        Err(x) => return Err(x),
    };
    if e == buf.len() {
        return Err(RespError::MissingData);
    }
    let start = e + 2;
    if n > buf.len() - start || buf.len() - start - n < 2 {
        return Err(RespError::MissingData);
    }
    let stop = start + n;
    if buf[stop] != CR || buf[stop + 1] != LF {
        return Err(RespError::MissingData);
    }
    let payload = vstd::slice::slice_to_vec(vstd::slice::slice_subrange(buf, start, stop));
    Ok((payload, stop + 2))
}

/// A decoded frame.
#[derive(Debug, Clone)]
pub enum Type {
    Array(Array),
    BulkString(BulkString),
    SimpleString(SimpleString),
}

impl View for Type {
    type V = Frame;

    open spec fn view(&self) -> Frame {
        match self {
            Type::Array(a) => Frame::Array(a@),
            Type::BulkString(b) => Frame::Bulk(b@),
            Type::SimpleString(s) => Frame::Simple(s@),
        }
    }
}

impl Type {
    /// Decodes one frame, choosing its kind by the first byte.
    pub fn from_bytes(buf: &[u8]) -> (r: Result<Type, RespError>)
        ensures
            match r {
                Ok(t) => decode_frame(buf@) == Ok::<Frame, RespError>(t@),
                Err(x) => decode_frame(buf@) == Err::<Frame, RespError>(x),
            },
    {
        if buf.len() == 0 {
            return Err(RespError::InvalidType);
        }
        let tag = buf[0];
        if tag == STAR {
            match Array::from_bytes(buf) {
                Ok(a) => Ok(Type::Array(a)),
                Err(x) => Err(x),
            }
        } else if tag == DOLLAR {
            match read_bulk(buf, 0) {
                Ok((d, _)) => Ok(Type::BulkString(BulkString::new(d))),
                Err(x) => Err(x),
            }
        } else if tag == PLUS {
            match SimpleString::from_bytes(buf) {
                Ok(s) => Ok(Type::SimpleString(s)),
                Err(x) => Err(x),
            }
        } else {
            Err(RespError::InvalidType)
        }
    }
}

impl ToRedisBytes for Type {
    open spec fn redis_bytes(&self) -> Seq<u8> {
        encode_frame(self@)
    }

    fn to_redis_bytes(&self) -> (r: Vec<u8>) {
        match self {
            Type::Array(a) => a.to_redis_bytes(),
            Type::BulkString(b) => b.to_redis_bytes(),
            Type::SimpleString(s) => s.to_redis_bytes(),
        }
    }
}

} // verus!
