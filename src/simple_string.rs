//! One-line text frames, prefixed with `+`.
use vstd::prelude::*;

use crate::resp::{decode_simple, find_line_end, line_end, simple_bytes, RespError, ToRedisBytes};
use crate::text::{is_utf8, push_all, CR, LF, PLUS};

verus! {

/// A simple string: the text after `+` on its line.
#[derive(Debug, Clone)]
pub struct SimpleString {
    data: Vec<u8>,
}

impl View for SimpleString {
    type V = Seq<u8>;

    closed spec fn view(&self) -> Seq<u8> {
        self.data@
    }
}

impl SimpleString {
    /// The text.
    pub fn data(&self) -> (r: &[u8])
        ensures
            r@ == self@,
    {
        self.data.as_slice()
    }

    /// Reads `+<text>` up to the first line end.
    pub fn from_bytes(buf: &[u8]) -> (r: Result<SimpleString, RespError>)
        ensures
            match r {
                Ok(s) => decode_simple(buf@) == Ok::<Seq<u8>, RespError>(s@),
                Err(x) => decode_simple(buf@) == Err::<Seq<u8>, RespError>(x),
            },
    {
        if buf.len() == 0 || buf[0] != PLUS {
            return Err(RespError::InvalidType);
        }
        // `buf[0]` is `+`, so the first line ends where the line from 1 ends.
        let e = find_line_end(buf, 1);
        assert(line_end(buf@, 0) == line_end(buf@, 1));
        let text = vstd::slice::slice_subrange(buf, 1, e);
        if !is_utf8(text) {
            return Err(RespError::Utf8Error);
        }
        Ok(SimpleString { data: vstd::slice::slice_to_vec(text) })
    }
}

impl ToRedisBytes for SimpleString {
    open spec fn redis_bytes(&self) -> Seq<u8> {
        simple_bytes(self@)
    }

    fn to_redis_bytes(&self) -> (r: Vec<u8>) {
        let mut out: Vec<u8> = Vec::new();
        out.push(PLUS);
        push_all(&mut out, self.data.as_slice());
        out.push(CR);
        out.push(LF);
        assert(out@ =~= simple_bytes(self@));
        out
    }
}

} // verus!
