//! Byte-level helpers shared by the line formats.
use vstd::prelude::*;
use vstd::utf8::*;

verus! {

/// The space byte.
pub const SPACE: u8 = 0x20;

/// The line feed byte.
pub const LF: u8 = 0x0a;

/// The carriage return byte.
pub const CR: u8 = 0x0d;

/// The index of the first `b` in `s`, or `s.len()` when there is none.
pub open spec fn find_byte(s: Seq<u8>, b: u8) -> int
    decreases s.len(),
{
    if s.len() == 0 {
        0
    } else if s[0] == b {
        0
    } else {
        1 + find_byte(s.drop_first(), b)
    }
}

/// `find_byte` finds the first occurrence, and only that.
pub proof fn lemma_find_byte(s: Seq<u8>, b: u8)
    ensures
        0 <= find_byte(s, b) <= s.len(),
        find_byte(s, b) < s.len() ==> s[find_byte(s, b)] == b,
        forall|i: int| 0 <= i < find_byte(s, b) ==> s[i] != b,
    decreases s.len(),
{
    if s.len() > 0 && s[0] != b {
        lemma_find_byte(s.drop_first(), b);
        assert forall|i: int| 0 <= i < find_byte(s, b) implies s[i] != b by {
            if i > 0 {
                assert(s[i] == s.drop_first()[i - 1]);
            }
        }
    }
}

/// A position that holds `b`, with no `b` before it, is the one `find_byte` gives;
/// so is the end of a sequence that holds no `b`.
pub proof fn lemma_find_byte_at(s: Seq<u8>, b: u8, p: int)
    requires
        0 <= p <= s.len(),
        p < s.len() ==> s[p] == b,
        forall|i: int| 0 <= i < p ==> s[i] != b,
    ensures
        find_byte(s, b) == p,
{
    lemma_find_byte(s, b);
    let q = find_byte(s, b);
    if q < p {
        assert(s[q] != b);
    } else if p < q {
        assert(s[p] != b);
    }
}

/// `find_byte` in a sequence with a known prefix free of `b`, followed by `b`.
pub proof fn lemma_find_byte_after(a: Seq<u8>, b: u8, rest: Seq<u8>)
    requires
        find_byte(a, b) == a.len(),
    ensures
        find_byte(a + seq![b] + rest, b) == a.len(),
        find_byte(a + seq![b], b) == a.len(),
{
    lemma_find_byte(a, b);
    let s = a + seq![b] + rest;
    assert forall|i: int| 0 <= i < a.len() implies s[i] != b by {
        assert(s[i] == a[i]);
    }
    lemma_find_byte_at(s, b, a.len() as int);
    let t = a + seq![b];
    assert forall|i: int| 0 <= i < a.len() implies t[i] != b by {
        assert(t[i] == a[i]);
    }
    lemma_find_byte_at(t, b, a.len() as int);
}

/// The line without one trailing LF, or without one trailing CRLF.
pub open spec fn strip_eol(l: Seq<u8>) -> Seq<u8> {
    if l.len() > 0 && l.last() == LF {
        let m = l.drop_last();
        if m.len() > 0 && m.last() == CR {
            m.drop_last()
        } else {
            m
        }
    } else {
        l
    }
}

/// The position of the first `b` in `s[from..to]`, or `to` when there is none.
pub fn position(s: &[u8], from: usize, to: usize, b: u8) -> (p: usize)
    requires
        from <= to <= s@.len(),
    ensures
        from <= p <= to,
        p == from + find_byte(s@.subrange(from as int, to as int), b),
{
    let ghost part = s@.subrange(from as int, to as int);
    let mut p = from;
    while p < to && s[p] != b
        invariant
            from <= p <= to,
            to <= s@.len(),
            part == s@.subrange(from as int, to as int),
            forall|i: int| from <= i < p ==> s@[i] != b,
        decreases to - p,
    {
        p = p + 1;
    }
    proof {
        assert forall|i: int| 0 <= i < p - from implies part[i] != b by {
            assert(part[i] == s@[from + i]);
        }
        if p < to {
            assert(part[p - from] == s@[p as int]);
        }
        lemma_find_byte_at(part, b, p - from);
    }
    p
}

/// Whether `a` and `b` hold the same bytes.
pub fn bytes_eq(a: &[u8], b: &[u8]) -> (r: bool)
    ensures
        r == (a@ == b@),
{
    if a.len() != b.len() {
        return false;
    }
    let mut i: usize = 0;
    while i < a.len()
        invariant
            a@.len() == b@.len(),
            i <= a@.len(),
            forall|j: int| 0 <= j < i ==> a@[j] == b@[j],
        decreases a@.len() - i,
    {
        if a[i] != b[i] {
            return false;
        }
        i = i + 1;
    }
    assert(a@ =~= b@);
    true
}

/// Whether `s` starts with `prefix`.
pub open spec fn has_prefix(s: Seq<u8>, prefix: Seq<u8>) -> bool {
    prefix.len() <= s.len() && s.subrange(0, prefix.len() as int) == prefix
}

/// Whether `s` starts with `prefix`.
pub fn starts_with(s: &[u8], prefix: &[u8]) -> (r: bool)
    ensures
        r == has_prefix(s@, prefix@),
{
    if prefix.len() > s.len() {
        return false;
    }
    let mut i: usize = 0;
    while i < prefix.len()
        invariant
            prefix@.len() <= s@.len(),
            i <= prefix@.len(),
            forall|j: int| 0 <= j < i ==> s@[j] == prefix@[j],
        decreases prefix@.len() - i,
    {
        if s[i] != prefix[i] {
            assert(s@.subrange(0, prefix@.len() as int)[i as int] != prefix@[i as int]);
            return false;
        }
        i = i + 1;
    }
    assert(s@.subrange(0, prefix@.len() as int) =~= prefix@);
    true
}

/// Cutting well-formed UTF-8 right before or right after an ASCII byte leaves
/// well-formed UTF-8 on both sides.
pub proof fn lemma_split_at_ascii(s: Seq<u8>, i: int)
    requires
        valid_utf8(s),
        0 <= i < s.len(),
        s[i] < 0x80,
    ensures
        valid_utf8(s.subrange(0, i)),
        valid_utf8(s.subrange(i, s.len() as int)),
        valid_utf8(s.subrange(0, i + 1)),
        valid_utf8(s.subrange(i + 1, s.len() as int)),
{
    assert(!is_continuation_byte(s[i]));
    is_char_boundary_iff_not_is_continuation_byte(s, i);
    valid_utf8_split(s, i);
    let tail = s.subrange(i, s.len() as int);
    assert(tail[0] == s[i]);
    assert(is_leading_byte_width_1(tail[0]));
    reveal_with_fuel(valid_utf8, 2);
    assert(pop_first_scalar(tail) =~= s.subrange(i + 1, s.len() as int));
    let head = s.subrange(0, i);
    let one = s.subrange(i, i + 1);
    assert(valid_utf8(one)) by {
        assert(pop_first_scalar(one) =~= Seq::<u8>::empty());
    }
    valid_utf8_concat(head, one);
    assert(head + one =~= s.subrange(0, i + 1));
}

/// A piece of well-formed UTF-8 that starts at its beginning or right after
/// an ASCII byte, and ends at its end or right before an ASCII byte, is
/// well-formed UTF-8.
pub proof fn lemma_valid_piece(s: Seq<u8>, i: int, j: int)
    requires
        valid_utf8(s),
        0 <= i <= j <= s.len(),
        i > 0 ==> s[i - 1] < 0x80,
        j < s.len() ==> s[j] < 0x80,
    ensures
        valid_utf8(s.subrange(i, j)),
{
    let t = if i > 0 {
        lemma_split_at_ascii(s, i - 1);
        s.subrange(i, s.len() as int)
    } else {
        assert(s.subrange(0, s.len() as int) =~= s);
        s
    };
    assert(valid_utf8(t));
    if j < s.len() {
        assert(t[j - i] == s[j]);
        lemma_split_at_ascii(t, j - i);
        assert(t.subrange(0, j - i) =~= s.subrange(i, j));
    } else {
        assert(t =~= s.subrange(i, j));
    }
}

} // verus!
