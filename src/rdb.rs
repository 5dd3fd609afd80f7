//! The empty RDB snapshot that follows a full resynchronisation, kept as hex
//! text and sent as `$<byte length>\r\n<raw bytes>`.
use vstd::prelude::*;
use vstd::string::StringSliceAdditionalSpecFns;

use crate::resp::{ToRedisBytes, DOLLAR};
use crate::text::{crlf, decimal, literal_bytes, push_decimal, CR, LF};

verus! {

/// The value of a hexadecimal digit; other bytes count as 0.
pub open spec fn hex_value(b: u8) -> u8 {
    if 48 <= b && b <= 57 {
        (b - 48) as u8
    } else if 97 <= b && b <= 102 {
        (b - 87) as u8
    } else if 65 <= b && b <= 70 {
        (b - 55) as u8
    } else {
        0
    }
}

/// The bytes written by hex text, two digits each.
pub open spec fn hex_decode(s: Seq<u8>) -> Seq<u8> {
    Seq::new(s.len() / 2, |i: int| (hex_value(s[2 * i]) * 16 + hex_value(s[2 * i + 1])) as u8)
}

pub open spec fn empty_rdb_hex() -> Seq<u8> {
    "524544495330303131fa0972656469732d76657205372e322e30fa0a72656469732d62697473c040fa056374696d65c26d08bc65fa08757365642d6d656dc2b0c41000fa08616f662d62617365c000fff06e3bfec0ff5aa2".spec_bytes()
}

fn hex_digit_value(b: u8) -> (r: u8)
    ensures
        r == hex_value(b),
{
    if 48 <= b && b <= 57 {
        b - 48
    } else if 97 <= b && b <= 102 {
        b - 87
    } else if 65 <= b && b <= 70 {
        b - 55
    } else {
        0
    }
}

/// An RDB snapshot held as hex text.
#[derive(Debug, Clone)]
pub struct RDBFile {
    hex_content: Vec<u8>,
}

impl View for RDBFile {
    type V = Seq<u8>;

    closed spec fn view(&self) -> Seq<u8> {
        self.hex_content@
    }
}

impl RDBFile {
    /// The snapshot of an empty keyspace.
    pub fn empty_file() -> (r: RDBFile)
        ensures
            r@ == empty_rdb_hex(),
    {
        RDBFile {
            hex_content: literal_bytes(
                "524544495330303131fa0972656469732d76657205372e322e30fa0a72656469732d62697473c040fa056374696d65c26d08bc65fa08757365642d6d656dc2b0c41000fa08616f662d62617365c000fff06e3bfec0ff5aa2",
            ),
        }
    }

    /// The hex text.
    pub fn hex_content(&self) -> (r: &[u8])
        ensures
            r@ == self@,
    {
        self.hex_content.as_slice()
    }

    /// The length of the snapshot in bytes.
    pub fn length(&self) -> (r: usize)
        ensures
            r == self@.len() / 2,
    {
        self.hex_content.len() / 2
    }

    /// The raw bytes of the snapshot.
    pub fn content(&self) -> (r: Vec<u8>)
        ensures
            r@ == hex_decode(self@),
    {
        let s = self.hex_content.as_slice();
        let n = s.len() / 2;
        let mut out: Vec<u8> = Vec::new();
        let mut i: usize = 0;
        let mut j: usize = 0;
        while i < n
            invariant
                n == s@.len() / 2,
                i <= n,
                j == 2 * i,
                out@ =~= hex_decode(s@).subrange(0, i as int),
            decreases n - i,
        {
            let hi = hex_digit_value(s[j]);
            let lo = hex_digit_value(s[j + 1]);
            assert(hi < 16 && lo < 16);
            out.push(hi * 16 + lo);
            i = i + 1;
            j = j + 2;
        }
        assert(hex_decode(s@).subrange(0, n as int) =~= hex_decode(s@));
        out
    }
}

impl ToRedisBytes for RDBFile {
    open spec fn redis_bytes(&self) -> Seq<u8> {
        seq![DOLLAR] + decimal(self@.len() / 2) + crlf() + hex_decode(self@)
    }

    fn to_redis_bytes(&self) -> (r: Vec<u8>) {
        let mut out: Vec<u8> = Vec::new();
        out.push(DOLLAR);
        push_decimal(&mut out, self.length() as u64);
        out.push(CR);
        out.push(LF);
        let mut content = self.content();
        out.append(&mut content);
        assert(out@ =~= seq![DOLLAR] + decimal(self@.len() / 2) + crlf() + hex_decode(self@));
        out
    }
}

} // verus!
