//! Length-prefixed binary payloads.
use vstd::prelude::*;
use vstd::string::StringSliceAdditionalSpecFns;
use vstd::utf8::encode_utf8;

use crate::resp::{bulk_bytes, decode_bulk_at, line_end, read_bulk, RespError, ToRedisBytes, DOLLAR};
use crate::text::{bytes_eq, literal_bytes, push_all, push_decimal, CR, LF};

verus! {

/// A bulk string: a length-prefixed payload. The length on the wire is
/// always the payload's own length.
#[derive(Debug, Clone, PartialEq, Eq)]
pub struct BulkString {
    data: Vec<u8>,
}

impl View for BulkString {
    type V = Seq<u8>;

    closed spec fn view(&self) -> Seq<u8> {
        self.data@
    }
}

/// The line `+PONG`, which a bulk string read also accepts.
pub open spec fn pong_line() -> Seq<u8> {
    "+PONG".spec_bytes()
}

pub open spec fn pong_text() -> Seq<u8> {
    "PONG".spec_bytes()
}

/// A bulk string read from the start of a buffer. A first line that reads
/// `+PONG` stands for the payload `PONG`.
pub open spec fn decode_bulk_string(buf: Seq<u8>) -> Result<Seq<u8>, RespError> {
    if buf.subrange(0, line_end(buf, 0)) == pong_line() {
        Ok(pong_text())
    } else {
        match decode_bulk_at(buf, 0) {
            Ok((d, _)) => Ok(d),
            Err(x) => Err(x),
        }
    }
}

impl BulkString {
    /// The bulk string holding `data`.
    pub fn new(data: Vec<u8>) -> (r: BulkString)
        ensures
            r@ == data@,
    {
        BulkString { data }
    }

    /// The length of the payload in bytes.
    pub fn length(&self) -> (r: usize)
        ensures
            r == self@.len(),
    {
        self.data.len()
    }

    /// A copy of the payload.
    pub fn data(&self) -> (r: Vec<u8>)
        ensures
            r@ == self@,
    {
        vstd::slice::slice_to_vec(self.data.as_slice())
    }

    /// The payload, borrowed.
    pub fn as_bytes(&self) -> (r: &[u8])
        ensures
            r@ == self@,
    {
        self.data.as_slice()
    }

    /// The bulk string holding the bytes of `s`.
    pub fn from_string(s: &str) -> (r: BulkString)
        ensures
            r@ == s.spec_bytes(),
    {
        BulkString::new(literal_bytes(s))
    }

    /// Reads the bulk string that starts at `pos`, and where the next one starts.
    pub fn build_from_iter(buf: &[u8], pos: usize) -> (r: Result<(BulkString, usize), RespError>)
        requires
            pos <= buf@.len(),
        ensures
            match r {
                Ok((b, next)) => decode_bulk_at(buf@, pos as int) == Ok::<(Seq<u8>, int), RespError>(
                    (b@, next as int),
                ) && next <= buf@.len(),
                Err(x) => decode_bulk_at(buf@, pos as int) == Err::<(Seq<u8>, int), RespError>(x),
            },
    {
        match read_bulk(buf, pos) {
            Ok((d, next)) => Ok((BulkString::new(d), next)),
            Err(x) => Err(x),
        }
    }

    /// Reads a bulk string from the start of `buf`; a `+PONG` line is read as `PONG`.
    pub fn from_bytes(buf: &[u8]) -> (r: Result<BulkString, RespError>)
        ensures
            match r {
                Ok(b) => decode_bulk_string(buf@) == Ok::<Seq<u8>, RespError>(b@),
                Err(x) => decode_bulk_string(buf@) == Err::<Seq<u8>, RespError>(x),
            },
    {
        let e = crate::resp::find_line_end(buf, 0);
        let first = vstd::slice::slice_subrange(buf, 0, e);
        if bytes_eq(first, literal_bytes("+PONG").as_slice()) {
            return Ok(BulkString::from_string("PONG"));
        }
        match read_bulk(buf, 0) {
            Ok((d, _)) => Ok(BulkString::new(d)),
            Err(x) => Err(x),
        }
    }
}

impl ToRedisBytes for BulkString {
    open spec fn redis_bytes(&self) -> Seq<u8> {
        bulk_bytes(self@)
    }

    fn to_redis_bytes(&self) -> (r: Vec<u8>) {
        bulk_payload_bytes(self.as_bytes())
    }
}

/// The bulk-string wire form of `d`.
pub fn bulk_payload_bytes(d: &[u8]) -> (r: Vec<u8>)
    ensures
        r@ == bulk_bytes(d@),
{
    let mut out: Vec<u8> = Vec::new();
    out.push(DOLLAR);
    push_decimal(&mut out, d.len() as u64);
    out.push(CR);
    out.push(LF);
    push_all(&mut out, d);
    out.push(CR);
    out.push(LF);
    assert(out@ =~= bulk_bytes(d@));
    out
}

impl ToRedisBytes for String {
    open spec fn redis_bytes(&self) -> Seq<u8> {
        bulk_bytes(encode_utf8(self@))
    }

    fn to_redis_bytes(&self) -> (r: Vec<u8>) {
        bulk_payload_bytes(self.as_str().as_bytes())
    }
}

} // verus!
