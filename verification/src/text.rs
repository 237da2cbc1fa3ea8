//! Bytes and text: UTF-8 views of strings and small byte-sequence helpers.
use vstd::prelude::*;
use vstd::string::StringSliceAdditionalSpecFns;
use vstd::utf8::*;

verus! {

/// The UTF-8 bytes of a string's characters.
pub open spec fn utf8_of(s: Seq<char>) -> Seq<u8> {
    encode_utf8(s)
}

/// Checks `v` for UTF-8 with `std::str::from_utf8`.
///
/// The contract claims what the standard library documents: the call succeeds
/// exactly on well-formed UTF-8 and the string it returns holds the same bytes.
#[verifier::external_body]
pub(crate) fn str_from_utf8(v: &[u8]) -> (r: Option<&str>)
    ensures
        r is Some <==> valid_utf8(v@),
        r matches Some(s) ==> s.spec_bytes() == v@,
{
    std::str::from_utf8(v).ok()
}

/// Values that can be turned into an owned `String`: `&str` and `String`.
pub trait IntoText {
    /// The characters of the text.
    spec fn text(&self) -> Seq<char>;

    /// Turns the value into a `String` holding the same characters.
    fn into_text(self) -> (s: String)
        ensures
            s@ == self.text(),
    ;
}

impl<'a> IntoText for &'a str {
    open spec fn text(&self) -> Seq<char> {
        (**self)@
    }

    fn into_text(self) -> (s: String) {
        self.to_owned()
    }
}

impl IntoText for String {
    open spec fn text(&self) -> Seq<char> {
        self@
    }

    fn into_text(self) -> (s: String) {
        self
    }
}

/// The bytes of a string slice, copied into a vector.
pub fn str_bytes(s: &str) -> (v: Vec<u8>)
    ensures
        v@ == utf8_of(s@),
{
    let b = s.as_bytes();
    let mut v: Vec<u8> = Vec::new();
    let mut i: usize = 0;
    while i < b.len()
        invariant
            i <= b@.len(),
            b@ == s.spec_bytes(),
            v@ == b@.subrange(0, i as int),
        decreases b@.len() - i,
    {
        v.push(b[i]);
        i = i + 1;
        assert(v@ =~= b@.subrange(0, i as int));
    }
    assert(v@ =~= b@);
    v
}

/// Appends `bytes` to `out`.
pub fn push_all(out: &mut Vec<u8>, bytes: &[u8])
    ensures
        final(out)@ == old(out)@ + bytes@,
{
    let mut i: usize = 0;
    while i < bytes.len()
        invariant
            i <= bytes@.len(),
            out@ == old(out)@ + bytes@.subrange(0, i as int),
        decreases bytes@.len() - i,
    {
        out.push(bytes[i]);
        i = i + 1;
        assert(out@ =~= old(out)@ + bytes@.subrange(0, i as int));
    }
    assert(bytes@.subrange(0, i as int) =~= bytes@);
}

/// Whether every byte of `s` is ASCII.
pub open spec fn is_ascii_bytes(s: Seq<u8>) -> bool {
    forall|i: int| 0 <= i < s.len() ==> #[trigger] s[i] < 0x80
}

/// ASCII bytes are well-formed UTF-8.
pub proof fn lemma_ascii_valid_utf8(s: Seq<u8>)
    requires
        is_ascii_bytes(s),
    ensures
        valid_utf8(s),
    decreases s.len(),
{
    if s.len() > 0 {
        assert(is_leading_byte_width_1(s[0]));
        assert(valid_first_scalar(s)) by {
            let b = s[0];
            assert(codepoint_width_1(b) < 0x80) by (bit_vector)
                requires
                    b < 0x80,
            ;
        }
        let rest = pop_first_scalar(s);
        assert(rest =~= s.subrange(1, s.len() as int));
        assert forall|i: int| 0 <= i < rest.len() implies #[trigger] rest[i] < 0x80 by {
            assert(rest[i] == s[i + 1]);
        }
        lemma_ascii_valid_utf8(rest);
    }
}

/// A `String` holding the UTF-8 text `v`.
pub fn bytes_to_string(v: &[u8]) -> (s: String)
    requires
        valid_utf8(v@),
    ensures
        utf8_of(s@) == v@,
{
    match str_from_utf8(v) {
        Some(t) => t.to_owned(),
        None => String::new(),
    }
}

/// Whether `c` has the Unicode `White_Space` property, as `char::is_whitespace`
/// documents it.
pub open spec fn is_white_space(c: char) -> bool {
    ||| '\u{9}' <= c <= '\u{d}'
    ||| c == ' '
    ||| c == '\u{85}'
    ||| c == '\u{a0}'
    ||| c == '\u{1680}'
    ||| '\u{2000}' <= c <= '\u{200a}'
    ||| c == '\u{2028}'
    ||| c == '\u{2029}'
    ||| c == '\u{202f}'
    ||| c == '\u{205f}'
    ||| c == '\u{3000}'
}

/// `s` without its leading white space.
pub open spec fn trim_start_chars(s: Seq<char>) -> Seq<char>
    decreases s.len(),
{
    if s.len() > 0 && is_white_space(s[0]) {
        trim_start_chars(s.drop_first())
    } else {
        s
    }
}

/// `s` without its trailing white space.
pub open spec fn trim_end_chars(s: Seq<char>) -> Seq<char>
    decreases s.len(),
{
    if s.len() > 0 && is_white_space(s.last()) {
        trim_end_chars(s.drop_last())
    } else {
        s
    }
}

/// `s` without its leading and trailing white space.
pub open spec fn trim_chars(s: Seq<char>) -> Seq<char> {
    trim_end_chars(trim_start_chars(s))
}

/// UTF-8 text without its leading and trailing white space.
pub open spec fn trim_utf8(b: Seq<u8>) -> Seq<u8> {
    utf8_of(trim_chars(decode_utf8(b)))
}

/// Trims `s` with `str::trim`.
///
/// The contract claims what the standard library documents: the result is
/// `s` without leading and trailing characters that have the Unicode
/// `White_Space` property.
#[verifier::external_body]
pub(crate) fn trim(s: &str) -> (t: &str)
    ensures
        t@ == trim_chars(s@),
{
    s.trim()
}

/// The characters of a string slice are the decoding of its bytes.
pub proof fn lemma_str_chars(s: &str)
    ensures
        valid_utf8(s.spec_bytes()),
        s@ == decode_utf8(s.spec_bytes()),
{
    encode_utf8_valid_utf8(s@);
    encode_utf8_decode_utf8(s@);
}

/// Text is empty exactly when its UTF-8 bytes are.
pub proof fn lemma_utf8_empty(c: Seq<char>)
    ensures
        (utf8_of(c).len() == 0) == (c.len() == 0),
{
    if c.len() > 0 {
        assert(encode_scalar(c[0] as u32).len() > 0);
    }
}

/// Well-formed UTF-8 text is the encoding of its decoding.
pub proof fn lemma_utf8_round(b: Seq<u8>)
    requires
        valid_utf8(b),
    ensures
        utf8_of(decode_utf8(b)) == b,
{
    decode_utf8_encode_utf8(b);
}

} // verus!
