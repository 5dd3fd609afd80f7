//! Byte-level text helpers shared by the codec and the command layer:
//! decimal numbers, line terminators, ASCII case folding and UTF-8 checks.
use vstd::prelude::*;
use vstd::slice::slice_to_vec;
use vstd::string::StringSliceAdditionalSpecFns;
use vstd::string::StrSliceExecFns;
use vstd::utf8::{
    encode_utf8, is_leading_byte_width_1, partial_valid_utf8, partial_valid_utf8_extend_ascii_block,
    valid_utf8,
};

verus! {

pub const CR: u8 = 13;

pub const LF: u8 = 10;

pub const PLUS: u8 = 43;

pub const MINUS: u8 = 45;

pub const SPACE: u8 = 32;

pub const ZERO: u8 = 48;

/// The line terminator of the wire protocol.
pub open spec fn crlf() -> Seq<u8> {
    seq![CR, LF]
}

pub open spec fn is_digit(b: u8) -> bool {
    ZERO <= b && b <= ZERO + 9
}

pub open spec fn all_digits(s: Seq<u8>) -> bool {
    forall|i: int| 0 <= i < s.len() ==> is_digit(#[trigger] s[i])
}

/// The number written by a run of decimal digits.
pub open spec fn digits_value(s: Seq<u8>) -> nat
    decreases s.len(),
{
    if s.len() == 0 {
        0
    } else {
        digits_value(s.drop_last()) * 10 + (s.last() - ZERO) as nat
    }
}

/// The digits of an unsigned number as text: an optional leading `+` is dropped.
pub open spec fn unsigned_digits(s: Seq<u8>) -> Seq<u8> {
    if s.len() > 0 && s[0] == PLUS {
        s.drop_first()
    } else {
        s
    }
}

/// An unsigned decimal no greater than `max`: an optional `+`, then one or more digits.
pub open spec fn parse_unsigned(s: Seq<u8>, max: nat) -> Option<nat> {
    let d = unsigned_digits(s);
    if d.len() > 0 && all_digits(d) && digits_value(d) <= max {
        Some(digits_value(d))
    } else {
        None
    }
}

/// A signed decimal within `[min, max]`: an optional `+` or `-`, then one or more digits.
pub open spec fn parse_signed(s: Seq<u8>, min: int, max: nat) -> Option<int> {
    if s.len() > 0 && s[0] == MINUS {
        let d = s.drop_first();
        if d.len() > 0 && all_digits(d) && min <= -digits_value(d) {
            Some(-digits_value(d))
        } else {
            None
        }
    } else {
        match parse_unsigned(s, max) {
            Some(v) => Some(v as int),
            None => None,
        }
    }
}

/// The shortest decimal text of a natural number.
pub open spec fn decimal(n: nat) -> Seq<u8>
    decreases n,
{
    if n < 10 {
        seq![(ZERO + n) as u8]
    } else {
        decimal(n / 10).push((ZERO + n % 10) as u8)
    }
}

/// The decimal text of an integer, with a leading `-` when negative.
pub open spec fn signed_decimal(n: int) -> Seq<u8> {
    if n < 0 {
        seq![MINUS] + decimal((-n) as nat)
    } else {
        decimal(n as nat)
    }
}

pub open spec fn ascii_lower(b: u8) -> u8 {
    if 65 <= b && b <= 90 {
        (b + 32) as u8
    } else {
        b
    }
}

/// `s` equals the lower-case word `word` once ASCII letters of `s` are lower-cased.
pub open spec fn matches_lowercase(s: Seq<u8>, word: Seq<u8>) -> bool {
    s.len() == word.len() && forall|i: int| 0 <= i < s.len() ==> ascii_lower(#[trigger] s[i]) == word[i]
}

/// The characters that `char::is_whitespace` accepts: those with the
/// Unicode White_Space property.
pub open spec fn is_white_space(c: char) -> bool {
    let u = c as u32;
    (9 <= u && u <= 13) || u == 32 || u == 0x85 || u == 0xA0 || u == 0x1680 || (0x2000 <= u && u
        <= 0x200A) || u == 0x2028 || u == 0x2029 || u == 0x202F || u == 0x205F || u == 0x3000
}

pub fn is_white_space_char(c: char) -> (r: bool)
    ensures
        r == is_white_space(c),
{
    let u = c as u32;
    (9 <= u && u <= 13) || u == 32 || u == 0x85 || u == 0xA0 || u == 0x1680 || (0x2000 <= u && u
        <= 0x200A) || u == 0x2028 || u == 0x2029 || u == 0x202F || u == 0x205F || u == 0x3000
}

pub open spec fn is_ascii_bytes(s: Seq<u8>) -> bool {
    forall|i: int| 0 <= i < s.len() ==> #[trigger] s[i] < 128
}

pub proof fn lemma_ascii_valid_utf8(s: Seq<u8>)
    requires
        is_ascii_bytes(s),
    ensures
        valid_utf8(s),
{
    assert(s.subrange(0, 0) =~= Seq::<u8>::empty());
    assert(partial_valid_utf8(s, 0));
    assert forall|i: int| 0 <= 0 <= i < s.len() <= s.len() implies #[trigger] is_leading_byte_width_1(s[i]) by {
        assert(s[i] < 128);
    }
    partial_valid_utf8_extend_ascii_block(s, 0, s.len() as int);
    assert(s.subrange(0, s.len() as int) =~= s);
}

pub proof fn lemma_decimal_shape(n: nat)
    ensures
        decimal(n).len() > 0,
        all_digits(decimal(n)),
        decimal(n)[0] != PLUS,
        digits_value(decimal(n)) == n,
        is_ascii_bytes(decimal(n)),
    decreases n,
{
    let d = decimal(n);
    if n >= 10 {
        lemma_decimal_shape(n / 10);
        assert(d.drop_last() =~= decimal(n / 10));
        assert(d[0] == decimal(n / 10)[0]);
        assert(d.last() == (ZERO + n % 10) as u8);
        assert((d.last() - ZERO) as nat == n % 10);
        assert(digits_value(d) == digits_value(d.drop_last()) * 10 + (d.last() - ZERO) as nat);
        assert((n / 10) * 10 + n % 10 == n);
    } else {
        assert(d.drop_last() =~= Seq::<u8>::empty());
        assert(digits_value(d) == digits_value(d.drop_last()) * 10 + (d.last() - ZERO) as nat);
        assert(digits_value(Seq::<u8>::empty()) == 0);
    }
}

/// Reading back the decimal text of a number gives the number.
pub proof fn lemma_parse_decimal(n: nat, max: nat)
    requires
        n <= max,
    ensures
        parse_unsigned(decimal(n), max) == Some(n),
{
    lemma_decimal_shape(n);
}

/// Reading back the signed decimal text of a number in `[min, max]` gives the number.
pub proof fn lemma_parse_signed_decimal(n: int, min: int, max: nat)
    requires
        min <= n <= max,
    ensures
        parse_signed(signed_decimal(n), min, max) == Some(n),
{
    if n < 0 {
        let m = (-n) as nat;
        lemma_decimal_shape(m);
        assert((seq![MINUS] + decimal(m)).drop_first() =~= decimal(m));
    } else {
        lemma_decimal_shape(n as nat);
        assert(is_digit(decimal(n as nat)[0]));
        lemma_parse_decimal(n as nat, max);
    }
}

pub proof fn lemma_digits_prefix_le(s: Seq<u8>, i: int)
    requires
        all_digits(s),
        0 <= i <= s.len(),
    ensures
        digits_value(s.subrange(0, i)) <= digits_value(s),
    decreases s.len(),
{
    if i == s.len() {
        assert(s.subrange(0, i) =~= s);
    } else {
        let t = s.drop_last();
        assert(all_digits(t)) by {
            assert forall|j: int| 0 <= j < t.len() implies is_digit(#[trigger] t[j]) by {
                assert(t[j] == s[j]);
            }
        }
        lemma_digits_prefix_le(t, i);
        assert(t.subrange(0, i) =~= s.subrange(0, i));
    }
}

/// Reads the digits `s[start..]` as a number no greater than `max`.
fn parse_digits(s: &[u8], start: usize, max: u64) -> (r: Option<u64>)
    requires
        start <= s@.len(),
    ensures
        ({
            let d = s@.subrange(start as int, s@.len() as int);
            r == if d.len() > 0 && all_digits(d) && digits_value(d) <= max as nat {
                Some(digits_value(d) as u64)
            } else {
                None::<u64>
            }
        }),
{
    let ghost d = s@.subrange(start as int, s@.len() as int);
    if start == s.len() {
        return None;
    }
    let mut value: u64 = 0;
    let mut i: usize = start;
    while i < s.len()
        invariant
            start <= i <= s@.len(),
            d == s@.subrange(start as int, s@.len() as int),
            all_digits(d.subrange(0, i - start)),
            value as nat == digits_value(d.subrange(0, i - start)),
            value <= max,
        decreases s@.len() - i,
    {
        let b = s[i];
        if b < ZERO || b > ZERO + 9 {
            assert(!is_digit(d[i - start]));
            return None;
        }
        let digit: u64 = (b - ZERO) as u64;
        let ghost prefix = d.subrange(0, i - start + 1);
        assert(prefix.drop_last() =~= d.subrange(0, i - start));
        if digit > max || value > (max - digit) / 10 {
            assert(digits_value(prefix) > max) by (nonlinear_arith)
                requires
                    digits_value(prefix) == value * 10 + digit,
                    digit > max || value > (max - digit) / 10,
            {
            }
            proof {
                if all_digits(d) {
                    lemma_digits_prefix_le(d, i - start + 1);
                }
            }
            return None;
        }
        assert(value * 10 + digit <= max) by (nonlinear_arith)
            requires
                value <= (max - digit) / 10,
                digit <= max,
        {
        }
        value = value * 10 + digit;
        i = i + 1;
        assert(all_digits(d.subrange(0, i - start))) by {
            assert forall|j: int| 0 <= j < i - start implies is_digit(#[trigger] d.subrange(0, i - start)[j]) by {
                if j < i - start - 1 {
                    assert(d.subrange(0, i - start)[j] == d.subrange(0, i - start - 1)[j]);
                }
            }
        }
    }
    assert(d.subrange(0, i - start) =~= d);
    Some(value)
}

/// Parses an unsigned decimal no greater than `max`, as `str::parse` does for unsigned integers.
pub fn parse_unsigned_bytes(s: &[u8], max: u64) -> (r: Option<u64>)
    ensures
        r == match parse_unsigned(s@, max as nat) {
            Some(v) => Some(v as u64),
            None => None::<u64>,
        },
{
    let start: usize = if s.len() > 0 && s[0] == PLUS { 1 } else { 0 };
    assert(s@.subrange(start as int, s@.len() as int) =~= unsigned_digits(s@));
    parse_digits(s, start, max)
}

/// Parses an offset as `str::parse::<i8>` does.
pub fn parse_i8_bytes(s: &[u8]) -> (r: Option<i8>)
    ensures
        r == match parse_signed(s@, -128, 127) {
            Some(v) => Some(v as i8),
            None => None::<i8>,
        },
{
    if s.len() > 0 && s[0] == MINUS {
        assert(s@.subrange(1, s@.len() as int) =~= s@.drop_first());
        match parse_digits(s, 1, 128) {
            Some(v) => Some((0 - v as i16) as i8),
            None => None,
        }
    } else {
        match parse_unsigned_bytes(s, 127) {
            Some(v) => Some(v as i8),
            None => None,
        }
    }
}

/// Appends the decimal text of `n`.
pub fn push_decimal(out: &mut Vec<u8>, n: u64)
    ensures
        final(out)@ == old(out)@ + decimal(n as nat),
    decreases n,
{
    if n >= 10 {
        push_decimal(out, n / 10);
    }
    out.push(ZERO + (n % 10) as u8);
    proof {
        if n >= 10 {
            assert(decimal(n as nat) == decimal((n / 10) as nat).push((ZERO + n % 10) as u8));
        }
    }
    assert(final(out)@ =~= old(out)@ + decimal(n as nat));
}

/// Appends the decimal text of a signed number.
pub fn push_signed_decimal(out: &mut Vec<u8>, n: i64)
    ensures
        final(out)@ == old(out)@ + signed_decimal(n as int),
{
    if n < 0 {
        out.push(MINUS);
        let magnitude: u64 = (0 - n as i128) as u64;
        push_decimal(out, magnitude);
        assert(final(out)@ =~= old(out)@ + signed_decimal(n as int));
    } else {
        push_decimal(out, n as u64);
    }
}

/// Appends all of `src`.
pub fn push_all(out: &mut Vec<u8>, src: &[u8])
    ensures
        final(out)@ == old(out)@ + src@,
{
    let mut i: usize = 0;
    while i < src.len()
        invariant
            i <= src@.len(),
            out@ == old(out)@ + src@.subrange(0, i as int),
        decreases src@.len() - i,
    {
        out.push(src[i]);
        i = i + 1;
        assert(out@ =~= old(out)@ + src@.subrange(0, i as int));
    }
    assert(src@.subrange(0, i as int) =~= src@);
}

/// Whether `s` is `word` up to the case of ASCII letters (`word` is lower case).
pub fn eq_lowercase(s: &[u8], word: &[u8]) -> (r: bool)
    ensures
        r == matches_lowercase(s@, word@),
{
    if s.len() != word.len() {
        return false;
    }
    let mut i: usize = 0;
    while i < s.len()
        invariant
            i <= s@.len(),
            s@.len() == word@.len(),
            forall|j: int| 0 <= j < i ==> ascii_lower(#[trigger] s@[j]) == word@[j],
        decreases s@.len() - i,
    {
        let b = s[i];
        let lower = if 65 <= b && b <= 90 { b + 32 } else { b };
        if lower != word[i] {
            return false;
        }
        i = i + 1;
    }
    true
}

/// Whether two byte strings are equal.
pub fn bytes_eq(a: &[u8], b: &[u8]) -> (r: bool)
    ensures
        r == (a@ == b@),
{
    if a.len() != b.len() {
        return false;
    }
    let mut i: usize = 0;
    while i < a.len()
        invariant
            i <= a@.len(),
            a@.len() == b@.len(),
            forall|j: int| 0 <= j < i ==> a@[j] == b@[j],
        decreases a@.len() - i,
    {
        if a[i] != b[i] {
            return false;
        }
        i = i + 1;
    }
    assert(a@ =~= b@);
    true
}

/// The bytes of a string literal.
pub fn literal_bytes(s: &str) -> (r: Vec<u8>)
    ensures
        r@ == s.spec_bytes(),
{
    slice_to_vec(s.as_bytes())
}

/// Relies on `std::str::from_utf8`: it succeeds exactly on well-formed UTF-8,
/// and the text it gives holds the same bytes.
#[verifier::external_body]
pub(crate) fn utf8_text(b: &[u8]) -> (r: Option<String>)
    ensures
        r is Some <==> valid_utf8(b@),
        r matches Some(s) ==> encode_utf8(s@) == b@,
{
    std::str::from_utf8(b).ok().map(str::to_owned)
}

/// Whether `b` is well-formed UTF-8.
pub(crate) fn is_utf8(b: &[u8]) -> (r: bool)
    ensures
        r == valid_utf8(b@),
{
    utf8_text(b).is_some()
}

/// Where the text of `cs` starts once leading white space is dropped,
/// looking from `i` on.
pub open spec fn first_non_space(cs: Seq<char>, i: int) -> int
    decreases cs.len() - i,
{
    if 0 <= i < cs.len() && is_white_space(cs[i]) {
        first_non_space(cs, i + 1)
    } else {
        i
    }
}

/// Where the text of `cs[lo..j]` ends once trailing white space is dropped.
pub open spec fn end_non_space(cs: Seq<char>, lo: int, j: int) -> int
    decreases j,
{
    if lo < j && 0 < j && is_white_space(cs[j - 1]) {
        end_non_space(cs, lo, j - 1)
    } else {
        j
    }
}

/// `cs` without leading and trailing white space, as `str::trim` gives it.
pub open spec fn trim_white_space(cs: Seq<char>) -> Seq<char> {
    let lo = first_non_space(cs, 0);
    cs.subrange(lo, end_non_space(cs, lo, cs.len() as int))
}

/// `c` is `w`, or the upper-case ASCII letter of the lower-case `w`.
pub open spec fn char_matches_lower(c: char, w: char) -> bool {
    c == w || (65 <= c as u32 && c as u32 <= 90 && c as u32 + 32 == w as u32)
}

/// `cs` equals the lower-case word `word` once ASCII letters are lower-cased.
pub open spec fn matches_lowercase_chars(cs: Seq<char>, word: Seq<char>) -> bool {
    cs.len() == word.len() && forall|i: int| 0 <= i < cs.len() ==> char_matches_lower(#[trigger] cs[i], word[i])
}

/// The bounds of the text of `s` once leading and trailing white space is dropped.
pub fn trim_bounds(s: &str) -> (r: (usize, usize))
    ensures
        r.0 == first_non_space(s@, 0),
        r.1 == end_non_space(s@, r.0 as int, s@.len() as int),
        r.0 <= r.1 <= s@.len(),
{
    let n = s.unicode_len();
    let mut lo: usize = 0;
    let mut scanning = true;
    while scanning
        invariant
            n == s@.len(),
            lo <= n,
            first_non_space(s@, 0) == if scanning { first_non_space(s@, lo as int) } else { lo as int },
        decreases n - lo + if scanning { 1int } else { 0int },
    {
        if lo < n && is_white_space_char(s.get_char(lo)) {
            lo = lo + 1;
        } else {
            scanning = false;
        }
    }
    let mut hi: usize = n;
    scanning = true;
    while scanning
        invariant
            n == s@.len(),
            lo <= hi <= n,
            end_non_space(s@, lo as int, n as int) == if scanning {
                end_non_space(s@, lo as int, hi as int)
            } else {
                hi as int
            },
        decreases hi + if scanning { 1int } else { 0int },
    {
        if lo < hi && is_white_space_char(s.get_char(hi - 1)) {
            hi = hi - 1;
        } else {
            scanning = false;
        }
    }
    (lo, hi)
}

/// Whether `s[lo..hi]` is the lower-case `word` up to the case of ASCII letters.
pub fn eq_lowercase_chars(s: &str, lo: usize, hi: usize, word: &str) -> (r: bool)
    requires
        lo <= hi <= s@.len(),
    ensures
        r == matches_lowercase_chars(s@.subrange(lo as int, hi as int), word@),
{
    let wn = word.unicode_len();
    if hi - lo != wn {
        return false;
    }
    let mut k: usize = 0;
    while k < wn
        invariant
            hi - lo == wn,
            lo <= hi <= s@.len(),
            wn == word@.len(),
            k <= wn,
            forall|j: int| 0 <= j < k ==> char_matches_lower(#[trigger] s@[lo + j], word@[j]),
        decreases wn - k,
    {
        let c = s.get_char(lo + k);
        let w = word.get_char(k);
        if !(c == w || (65 <= c as u32 && c as u32 <= 90 && c as u32 + 32 == w as u32)) {
            assert(s@.subrange(lo as int, hi as int)[k as int] == s@[lo + k]);
            return false;
        }
        k = k + 1;
    }
    assert forall|j: int| 0 <= j < s@.subrange(lo as int, hi as int).len() implies char_matches_lower(
        #[trigger] s@.subrange(lo as int, hi as int)[j],
        word@[j],
    ) by {
        assert(s@.subrange(lo as int, hi as int)[j] == s@[lo + j]);
    }
    true
}

} // verus!
