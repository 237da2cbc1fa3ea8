//! Percent-encoding and decoding as the Assuan protocol uses it.
//!
//! Bytes outside `0x20..=0x7E`, and `%` itself, are written as `%XX` with
//! upper-case hex digits. There is no `+`-for-space convention.
use vstd::prelude::*;
use vstd::string::StringSliceAdditionalSpecFns;
use vstd::utf8::valid_utf8;
use crate::error::{is_malformed, Error};
use crate::text::{is_ascii_bytes, str_from_utf8};

verus! {

/// The `%` byte.
pub const PERCENT: u8 = 0x25;

/// A byte that `encode` copies as it is: printable ASCII other than `%`.
pub open spec fn is_literal(b: u8) -> bool {
    0x20 <= b <= 0x7e && b != 0x25
}

/// The upper-case hex digit of a nibble.
pub open spec fn hex_digit(n: u8) -> u8
    recommends
        n < 16,
{
    if n < 10 {
        (0x30 + n) as u8
    } else {
        (0x41 + n - 10) as u8
    }
}

/// The bytes that stand for `b` in encoded text.
pub open spec fn encode_byte(b: u8) -> Seq<u8> {
    if is_literal(b) {
        seq![b]
    } else {
        seq![0x25u8, hex_digit(b / 16), hex_digit(b % 16)]
    }
}

/// The percent-encoding of `s`.
pub open spec fn percent_encode(s: Seq<u8>) -> Seq<u8>
    decreases s.len(),
{
    if s.len() == 0 {
        Seq::empty()
    } else {
        percent_encode(s.drop_last()) + encode_byte(s.last())
    }
}

/// The value of an ASCII hex digit, either case.
pub open spec fn hex_value(b: u8) -> Option<u8> {
    if 0x30 <= b <= 0x39 {
        Some((b - 0x30) as u8)
    } else if 0x61 <= b <= 0x66 {
        Some((b - 0x61 + 10) as u8)
    } else if 0x41 <= b <= 0x46 {
        Some((b - 0x41 + 10) as u8)
    } else {
        None
    }
}

/// Whether `s` starts with `%` and two hex digits.
pub open spec fn starts_with_escape(s: Seq<u8>) -> bool {
    &&& s.len() >= 3
    &&& s[0] == 0x25
    &&& hex_value(s[1]) is Some
    &&& hex_value(s[2]) is Some
}

/// The byte that an escape at the start of `s` stands for.
pub open spec fn escape_value(s: Seq<u8>) -> u8
    recommends
        starts_with_escape(s),
{
    (hex_value(s[1]).unwrap() * 16 + hex_value(s[2]).unwrap()) as u8
}

/// The percent-decoding of `s`, read from left to right: each `%` followed by
/// two hex digits becomes one byte; every other byte, a lone `%` included, is
/// kept.
pub open spec fn percent_decode(s: Seq<u8>) -> Seq<u8>
    decreases s.len(),
{
    if s.len() == 0 {
        Seq::empty()
    } else if starts_with_escape(s) {
        seq![escape_value(s)] + percent_decode(s.subrange(3, s.len() as int))
    } else {
        seq![s[0]] + percent_decode(s.subrange(1, s.len() as int))
    }
}

/// Encoding distributes over concatenation.
pub proof fn lemma_encode_concat(a: Seq<u8>, b: Seq<u8>)
    ensures
        percent_encode(a + b) == percent_encode(a) + percent_encode(b),
    decreases b.len(),
{
    if b.len() == 0 {
        assert(a + b =~= a);
        assert(percent_encode(a) + percent_encode(b) =~= percent_encode(a));
    } else {
        lemma_encode_concat(a, b.drop_last());
        assert((a + b).drop_last() =~= a + b.drop_last());
        assert((a + b).last() == b.last());
        assert(percent_encode(a + b) =~= percent_encode(a) + percent_encode(b.drop_last())
            + encode_byte(b.last()));
    }
}

/// Every byte takes at most three bytes once encoded.
pub proof fn lemma_encode_len(s: Seq<u8>)
    ensures
        s.len() <= percent_encode(s).len() <= 3 * s.len(),
    decreases s.len(),
{
    if s.len() > 0 {
        lemma_encode_len(s.drop_last());
    }
}

/// Decoding never makes text longer.
pub proof fn lemma_decode_shrinks(s: Seq<u8>)
    ensures
        percent_decode(s).len() <= s.len(),
    decreases s.len(),
{
    if s.len() > 0 {
        if starts_with_escape(s) {
            lemma_decode_shrinks(s.subrange(3, s.len() as int));
        } else {
            lemma_decode_shrinks(s.subrange(1, s.len() as int));
        }
    }
}

/// Encoded text never ends with a line feed.
pub proof fn lemma_encode_last(s: Seq<u8>)
    requires
        s.len() > 0,
    ensures
        percent_encode(s).len() > 0,
        percent_encode(s).last() != 0x0a,
{
    let b = s.last();
    if !is_literal(b) {
        assert(hex_digit(b % 16) != 0x0a);
    }
}

proof fn lemma_hex_digit_value(n: u8)
    requires
        n < 16,
    ensures
        hex_value(hex_digit(n)) == Some(n),
{
}

/// Percent-encoded text holds only printable ASCII (`0x20..=0x7E`): no
/// control byte, such as `\r` or `\n`, ever reaches the wire.
pub proof fn lemma_encode_printable(s: Seq<u8>)
    ensures
        forall|i: int| 0 <= i < percent_encode(s).len() ==> 0x20 <= #[trigger] percent_encode(s)[i] <= 0x7e,
    decreases s.len(),
{
    if s.len() > 0 {
        lemma_encode_printable(s.drop_last());
        let e = percent_encode(s.drop_last());
        let b = encode_byte(s.last());
        assert forall|i: int| 0 <= i < b.len() implies 0x20 <= #[trigger] b[i] <= 0x7e by {
            let x = s.last();
            if !is_literal(x) {
                assert(x / 16 < 16 && x % 16 < 16);
            }
        }
        assert forall|i: int| 0 <= i < (e + b).len() implies 0x20 <= #[trigger] (e + b)[i] <= 0x7e by {
            if i < e.len() {
                assert((e + b)[i] == e[i]);
            } else {
                assert((e + b)[i] == b[i - e.len()]);
            }
        }
    }
}

/// Percent-encoded text is ASCII.
pub proof fn lemma_encode_ascii(s: Seq<u8>)
    ensures
        is_ascii_bytes(percent_encode(s)),
{
    lemma_encode_printable(s);
    assert forall|i: int| 0 <= i < percent_encode(s).len() implies #[trigger] percent_encode(s)[i] < 0x80 by {
        assert(0x20 <= percent_encode(s)[i] <= 0x7e);
    }
}

/// A printable ASCII byte other than `%` is written as it is; `%` and every
/// byte outside `0x20..=0x7E` is written as three bytes: `%` and two
/// upper-case hex digits that read back as the byte.
pub proof fn lemma_encode_one_byte(b: u8)
    ensures
        (0x20 <= b <= 0x7e && b != 0x25) ==> percent_encode(seq![b]) == seq![b],
        !(0x20 <= b <= 0x7e && b != 0x25) ==> {
            let e = percent_encode(seq![b]);
            &&& e.len() == 3
            &&& e[0] == 0x25
            &&& hex_value(e[1]) == Some(b / 16)
            &&& hex_value(e[2]) == Some(b % 16)
            &&& (0x30 <= e[1] <= 0x39 || 0x41 <= e[1] <= 0x46)
            &&& (0x30 <= e[2] <= 0x39 || 0x41 <= e[2] <= 0x46)
        },
{
    let s = seq![b];
    assert(s.drop_last() =~= Seq::<u8>::empty());
    assert(s.last() == b);
    assert(percent_encode(Seq::<u8>::empty()) == Seq::<u8>::empty());
    assert(percent_encode(s) == percent_encode(s.drop_last()) + encode_byte(b));
    assert(Seq::<u8>::empty() + encode_byte(b) =~= encode_byte(b));
    assert(percent_encode(s) =~= encode_byte(b));
    assert(b / 16 < 16 && b % 16 < 16);
    lemma_hex_digit_value(b / 16);
    lemma_hex_digit_value(b % 16);
}

/// Decoding undoes encoding, for every byte string.
pub proof fn lemma_decode_encode(s: Seq<u8>)
    ensures
        percent_decode(percent_encode(s)) == s,
    decreases s.len(),
{
    if s.len() > 0 {
        let b = s[0];
        let rest = s.subrange(1, s.len() as int);
        assert(s =~= seq![b] + rest);
        lemma_encode_concat(seq![b], rest);
        assert(seq![b].drop_last() =~= Seq::<u8>::empty());
        assert(seq![b].last() == b);
        assert(percent_encode(Seq::<u8>::empty()) =~= Seq::<u8>::empty());
        assert(percent_encode(seq![b]) =~= encode_byte(b));
        let e = percent_encode(s);
        assert(e =~= encode_byte(b) + percent_encode(rest));
        lemma_decode_encode(rest);
        if is_literal(b) {
            assert(e.subrange(1, e.len() as int) =~= percent_encode(rest));
        } else {
            lemma_hex_digit_value(b / 16);
            lemma_hex_digit_value(b % 16);
            assert(e.subrange(3, e.len() as int) =~= percent_encode(rest));
            assert(starts_with_escape(e));
            assert(escape_value(e) == b);
        }
    }
}

/// Convert a nibble (0–15) to its upper-case hex ASCII digit.
fn hex_upper(b: u8) -> (d: u8)
    requires
        b < 16,
    ensures
        d == hex_digit(b),
{
    if b < 10 {
        0x30 + b
    } else {
        0x41 + b - 10
    }
}

/// Convert an ASCII hex digit to its nibble value.
fn hex_val(b: u8) -> (v: Option<u8>)
    ensures
        v == hex_value(b),
{
    if 0x30 <= b && b <= 0x39 {
        Some(b - 0x30)
    } else if 0x61 <= b && b <= 0x66 {
        Some(b - 0x61 + 10)
    } else if 0x41 <= b && b <= 0x46 {
        Some(b - 0x41 + 10)
    } else {
        None
    }
}

/// Encode `src` into `dst`, returning the number of bytes written to `dst`.
///
/// Bytes in the printable ASCII range `0x20..=0x7E` (except `%`) are copied
/// literally. `%` and bytes outside that range are encoded as `%XX`.
/// `dst` must hold the whole encoding; the bytes past it are left alone.
pub fn encode(src: &[u8], dst: &mut [u8]) -> (n: usize)
    requires
        percent_encode(src@).len() <= old(dst)@.len(),
    ensures
        n == percent_encode(src@).len(),
        final(dst)@.len() == old(dst)@.len(),
        final(dst)@.subrange(0, n as int) == percent_encode(src@),
        final(dst)@.subrange(n as int, final(dst)@.len() as int) == old(dst)@.subrange(
            n as int,
            old(dst)@.len() as int,
        ),
{
    let ghost whole = old(dst)@;
    let mut pos: usize = 0;
    let mut i: usize = 0;
    while i < src.len()
        invariant
            i <= src@.len(),
            percent_encode(src@).len() <= whole.len(),
            dst@.len() == whole.len(),
            pos <= whole.len(),
            pos == percent_encode(src@.subrange(0, i as int)).len(),
            dst@.subrange(0, pos as int) == percent_encode(src@.subrange(0, i as int)),
            dst@.subrange(pos as int, whole.len() as int) == whole.subrange(
                pos as int,
                whole.len() as int,
            ),
        decreases src@.len() - i,
    {
        let b = src[i];
        let ghost done = src@.subrange(0, i as int);
        let ghost next = src@.subrange(0, i + 1);
        proof {
            assert(next.drop_last() =~= done);
            assert(next.last() == b);
            lemma_encode_concat(next, src@.subrange(i + 1, src@.len() as int));
            assert(next + src@.subrange(i + 1, src@.len() as int) =~= src@);
        }
        let ghost before = dst@;
        let ghost old_pos = pos;
        assert forall|k: int| old_pos <= k < whole.len() implies before[k] == whole[k] by {
            assert(before.subrange(old_pos as int, whole.len() as int)[k - old_pos] == whole.subrange(
                old_pos as int,
                whole.len() as int,
            )[k - old_pos]);
        }
        if b >= 0x20 && b <= 0x7e && b != PERCENT {
            dst[pos] = b;
            pos = pos + 1;
        } else {
            let hi = b >> 4;
            let lo = b & 0x0f;
            assert(hi == b / 16 && lo == b % 16) by (bit_vector)
                requires
                    hi == b >> 4,
                    lo == b & 0x0f,
            ;
            dst[pos] = PERCENT;
            dst[pos + 1] = hex_upper(hi);
            dst[pos + 2] = hex_upper(lo);
            pos = pos + 3;
        }
        i = i + 1;
        assert(dst@.subrange(0, pos as int) =~= percent_encode(next));
        assert(dst@.subrange(pos as int, whole.len() as int) =~= whole.subrange(
            pos as int,
            whole.len() as int,
        ));
    }
    assert(src@.subrange(0, i as int) =~= src@);
    pos
}

/// The maximum encoded length for `src_len` bytes: every byte as `%XX`.
pub fn encoded_len(src_len: usize) -> (n: usize)
    requires
        src_len <= usize::MAX / 3,
    ensures
        n == 3 * src_len,
{
    src_len * 3
}

/// Decodes `bytes[start..end]` in place, returning where the decoded text ends.
///
/// The decoded bytes are written from `start` on; the bytes before `start`
/// and those past the decoded text are left as they were.
pub(crate) fn decode_range(bytes: &mut [u8], start: usize, end: usize) -> (stop: usize)
    requires
        start <= end <= old(bytes)@.len(),
    ensures
        ({
            let old_bytes = old(bytes)@;
            let d = percent_decode(old_bytes.subrange(start as int, end as int));
            &&& stop == start + d.len()
            &&& stop <= end
            &&& final(bytes)@ == old_bytes.subrange(0, start as int) + d + old_bytes.subrange(
                stop as int,
                old_bytes.len() as int,
            )
        }),
{
    let ghost orig = old(bytes)@;
    let ghost total = percent_decode(orig.subrange(start as int, end as int));
    let len = end;
    let whole = bytes.len();
    let mut write = start;
    let mut read = start;
    while read < len
        invariant
            len <= whole,
            whole == orig.len(),
            bytes@.len() == whole,
            start <= write <= read <= len,
            bytes@.subrange(0, start as int) == orig.subrange(0, start as int),
            bytes@.subrange(write as int, whole as int) == orig.subrange(write as int, whole as int),
            total == bytes@.subrange(start as int, write as int) + percent_decode(
                orig.subrange(read as int, len as int),
            ),
            total.len() == (write - start) + percent_decode(
                orig.subrange(read as int, len as int),
            ).len(),
        decreases len - read,
    {
        let ghost rest = orig.subrange(read as int, len as int);
        let ghost prev = bytes@;
        assert forall|k: int| write <= k < whole implies bytes@[k] == orig[k] by {
            assert(bytes@.subrange(write as int, whole as int)[k - write] == orig.subrange(
                write as int,
                whole as int,
            )[k - write]);
        }
        assert(rest[0] == bytes@[read as int]);
        if bytes[read] == PERCENT && len - read > 2 {
            let h = hex_val(bytes[read + 1]);
            let l = hex_val(bytes[read + 2]);
            assert(rest[1] == bytes@[read + 1] && rest[2] == bytes@[read + 2]);
            if let (Some(hi), Some(lo)) = (h, l) {
                assert(starts_with_escape(rest));
                assert(rest.subrange(3, rest.len() as int) =~= orig.subrange(
                    read + 3,
                    len as int,
                ));
                let v = (hi << 4) | lo;
                assert(v == hi * 16 + lo) by (bit_vector)
                    requires
                        hi < 16,
                        lo < 16,
                        v == (hi << 4) | lo,
                ;
                bytes[write] = v;
                read = read + 3;
                write = write + 1;
                assert(bytes@.subrange(start as int, write as int) =~= prev.subrange(
                    start as int,
                    write - 1,
                ) + seq![escape_value(rest)]);
                assert(bytes@.subrange(0, start as int) =~= orig.subrange(0, start as int));
                assert(bytes@.subrange(write as int, whole as int) =~= orig.subrange(
                    write as int,
                    whole as int,
                ));
                continue;
            }
        }
        assert(!starts_with_escape(rest));
        assert(rest.subrange(1, rest.len() as int) =~= orig.subrange(read + 1, len as int));
        let b = bytes[read];
        bytes[write] = b;
        read = read + 1;
        write = write + 1;
        assert(bytes@.subrange(start as int, write as int) =~= prev.subrange(
            start as int,
            write - 1,
        ) + seq![rest[0]]);
        assert(bytes@.subrange(0, start as int) =~= orig.subrange(0, start as int));
        assert(bytes@.subrange(write as int, whole as int) =~= orig.subrange(
            write as int,
            whole as int,
        ));
    }
    assert(orig.subrange(read as int, len as int) =~= Seq::<u8>::empty());
    assert(bytes@ =~= orig.subrange(0, start as int) + total + orig.subrange(
        write as int,
        whole as int,
    ));
    write
}

/// Decode percent-encoded bytes in place, returning the decoded text.
///
/// Handles `%XX` escape sequences, either case; does not interpret `+` as
/// space. The decoded bytes are written to the front of `s`; the rest of `s`
/// keeps its bytes. Returns an error if the decoded bytes are not valid UTF-8.
pub fn decode_in_place(s: &mut [u8]) -> (r: Result<&str, Error>)
    ensures
        ({
            let d = percent_decode(old(s)@);
            &&& final(s)@ == d + old(s)@.subrange(d.len() as int, old(s)@.len() as int)
            &&& r is Ok <==> valid_utf8(d)
            &&& (r matches Ok(t) ==> t.spec_bytes() == d)
            &&& (r matches Err(e) ==> is_malformed(e))
        }),
{
    let len = decode_range(s, 0, s.len());
    assert(old(s)@.subrange(0, old(s)@.len() as int) =~= old(s)@);
    assert(s@.subrange(0, len as int) =~= percent_decode(old(s)@));
    match str_from_utf8(&s[0..len]) {
        Some(t) => Ok(t),
        None => Err(Error::malformed()),
    }
}

} // verus!
