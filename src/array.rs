//! Arrays of bulk strings, the frame in which commands travel.
use vstd::prelude::*;
use vstd::string::{StrSliceExecFns, StringSliceAdditionalSpecFns};
use vstd::utf8::encode_utf8;

use crate::bulkstring::BulkString;
use crate::resp::{
    array_bytes, bulks_bytes, decode_array, decode_bulks, find_line_end, header_value, line_end, read_header,
    RespError, ToRedisBytes, STAR,
};
use crate::text::{is_white_space, is_white_space_char, push_all, push_decimal, CR, LF};

verus! {

/// An array frame whose items are bulk strings.
#[derive(Debug, Clone)]
pub struct Array {
    bulkstrings: Vec<BulkString>,
}

pub open spec fn payloads(v: Seq<BulkString>) -> Seq<Seq<u8>> {
    v.map_values(|b: BulkString| b@)
}

impl View for Array {
    type V = Seq<Seq<u8>>;

    closed spec fn view(&self) -> Seq<Seq<u8>> {
        payloads(self.bulkstrings@)
    }
}

/// The words of `s[i..]`, given that the word in progress starts at
/// `start` and the words `acc` are already complete.
pub open spec fn words_from(s: Seq<char>, i: int, start: int, acc: Seq<Seq<char>>) -> Seq<Seq<char>>
    decreases s.len() - i,
{
    if i >= s.len() {
        if start < s.len() {
            acc.push(s.subrange(start, s.len() as int))
        } else {
            acc
        }
    } else if is_white_space(s[i]) {
        words_from(s, i + 1, i + 1, if start < i { acc.push(s.subrange(start, i)) } else { acc })
    } else {
        words_from(s, i + 1, start, acc)
    }
}

/// The maximal runs of characters of `s` that are not white space, in order,
/// as `str::split_whitespace` gives them.
pub open spec fn whitespace_words(s: Seq<char>) -> Seq<Seq<char>> {
    words_from(s, 0, 0, Seq::empty())
}

/// The UTF-8 bytes of each word.
pub open spec fn encoded_words(words: Seq<Seq<char>>) -> Seq<Seq<u8>> {
    words.map_values(|w: Seq<char>| encode_utf8(w))
}

impl Array {
    /// The items.
    pub fn bulkstrings(&self) -> (r: &Vec<BulkString>)
        ensures
            payloads(r@) == self@,
    {
        &self.bulkstrings
    }

    /// The array of the given items.
    pub fn new(bulkstrings: Vec<BulkString>) -> (r: Array)
        ensures
            r@ == payloads(bulkstrings@),
    {
        Array { bulkstrings }
    }

    /// Decodes an array of bulk strings from the start of `buf`.
    pub fn from_bytes(buf: &[u8]) -> (r: Result<Array, RespError>)
        ensures
            match r {
                Ok(a) => decode_array(buf@) == Ok::<Seq<Seq<u8>>, RespError>(a@),
                Err(x) => decode_array(buf@) == Err::<Seq<Seq<u8>>, RespError>(x),
            },
    {
        let e = find_line_end(buf, 0);
        let n = match read_header(buf, 0, e, STAR) {
            Ok(n) => n,
            Err(x) => return Err(x),
        };
        let mut items: Vec<BulkString> = Vec::new();
        if e == buf.len() {
            // No line follows the header.
            if n == 0 {
                assert(payloads(items@) =~= Seq::<Seq<u8>>::empty());
                return Ok(Array { bulkstrings: items });
            }
            return Err(RespError::MissingLength);
        }
        let mut pos: usize = e + 2;
        let mut k: usize = 0;
        assert(payloads(items@) =~= Seq::<Seq<u8>>::empty());
        while k < n
            invariant
                pos <= buf@.len(),
                k <= n,
                e == line_end(buf@, 0),
                header_value(buf@.subrange(0, e as int), STAR) == Ok::<nat, RespError>(n as nat),
                decode_bulks(buf@, e + 2, n as nat, Seq::empty()) == decode_bulks(
                    buf@,
                    pos as int,
                    (n - k) as nat,
                    payloads(items@),
                ),
            decreases n - k,
        {
            match BulkString::build_from_iter(buf, pos) {
                Ok((b, next)) => {
                    let ghost before = payloads(items@);
                    items.push(b);
                    assert(payloads(items@) =~= before.push(b@));
                    pos = next;
                },
                Err(x) => {
                    assert(decode_bulks(buf@, pos as int, (n - k) as nat, payloads(items@)) == Err::<
                        (Seq<Seq<u8>>, int),
                        RespError,
                    >(x));
                    return Err(x);
                },
            }
            k = k + 1;
        }
        Ok(Array { bulkstrings: items })
    }

    /// The array of the words of `s`, split at white space as
    /// `str::split_whitespace` splits.
    pub fn from_string(s: &str) -> (r: Array)
        ensures
            r@ == encoded_words(whitespace_words(s@)),
    {
        let n = s.unicode_len();
        let mut items: Vec<BulkString> = Vec::new();
        let ghost mut acc: Seq<Seq<char>> = Seq::empty();
        let mut start: usize = 0;
        let mut i: usize = 0;
        assert(payloads(items@) =~= encoded_words(acc));
        while i < n
            invariant
                n == s@.len(),
                start <= i <= n,
                whitespace_words(s@) == words_from(s@, i as int, start as int, acc),
                payloads(items@) == encoded_words(acc),
            decreases n - i,
        {
            let c = s.get_char(i);
            if is_white_space_char(c) {
                if start < i {
                    let word = s.substring_char(start, i);
                    let b = BulkString::new(vstd::slice::slice_to_vec(word.as_bytes()));
                    let ghost before = payloads(items@);
                    items.push(b);
                    proof {
                        acc = acc.push(s@.subrange(start as int, i as int));
                    }
                    assert(payloads(items@) =~= before.push(b@));
                    assert(encoded_words(acc) =~= before.push(b@));
                }
                start = i + 1;
            }
            i = i + 1;
        }
        if start < n {
            let word = s.substring_char(start, n);
            let b = BulkString::new(vstd::slice::slice_to_vec(word.as_bytes()));
            let ghost before = payloads(items@);
            items.push(b);
            proof {
                acc = acc.push(s@.subrange(start as int, n as int));
            }
            assert(payloads(items@) =~= before.push(b@));
            assert(encoded_words(acc) =~= before.push(b@));
        }
        Array { bulkstrings: items }
    }
}

impl ToRedisBytes for Array {
    open spec fn redis_bytes(&self) -> Seq<u8> {
        array_bytes(self@)
    }

    fn to_redis_bytes(&self) -> (r: Vec<u8>) {
        let mut out: Vec<u8> = Vec::new();
        out.push(STAR);
        push_decimal(&mut out, self.bulkstrings.len() as u64);
        out.push(CR);
        out.push(LF);
        let ghost items = self@;
        let ghost header = out@;
        let mut i: usize = 0;
        while i < self.bulkstrings.len()
            invariant
                i <= self.bulkstrings@.len(),
                items == payloads(self.bulkstrings@),
                out@ == header + bulks_bytes(items.subrange(0, i as int)),
            decreases self.bulkstrings@.len() - i,
        {
            let chunk = self.bulkstrings[i].to_redis_bytes();
            push_all(&mut out, chunk.as_slice());
            proof {
                assert(items.subrange(0, i + 1).drop_last() =~= items.subrange(0, i as int));
                assert(items[i as int] == self.bulkstrings@[i as int]@);
            }
            i = i + 1;
            assert(out@ =~= header + bulks_bytes(items.subrange(0, i as int)));
        }
        assert(items.subrange(0, i as int) =~= items);
        assert(out@ =~= array_bytes(self@));
        out
    }
}

} // verus!
