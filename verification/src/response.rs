//! Assuan response types, parsing and writing.
//!
//! The [`Response`] enum represents all server-side response lines in the Assuan
//! protocol. Each variant carries owned data and can be written to a byte
//! buffer via [`Response::write_to`].
//!
//! | Variant   | Format                          |
//! |-----------|---------------------------------|
//! | `Okay`    | `OK [message]\n`                |
//! | `Error`   | `ERR code [message]\n`          |
//! | `Status`  | `S keyword [value]\n`           |
//! | `Comment` | `# comment\n`                   |
//! | `Data`    | `D <percent-encoded-data>\n`    |
//! | `Inquire` | `INQUIRE keyword [params]\n`    |
use vstd::prelude::*;
use vstd::string::StringSliceAdditionalSpecFns;
use vstd::utf8::*;

use crate::error::{is_line_too_long, is_malformed, Error, ErrorCode};
use crate::number::{decimal, parse_u32, parse_u32_bytes};
use crate::percent::{self, percent_decode, percent_encode};
use crate::request::{args_or_empty, data_placeholder, opt_utf8, placeholder, write_data, write_line};
use crate::text::{
    bytes_to_string, lemma_ascii_valid_utf8, lemma_str_chars, lemma_utf8_empty, lemma_utf8_round, push_all,
    str_bytes, str_from_utf8, utf8_of, IntoText,
};
use crate::wire::{find_byte, has_prefix, lemma_valid_piece, position, starts_with, LF, SPACE};
use crate::MAX_LINE_SIZE;

verus! {

broadcast use {encode_utf8_valid_utf8, valid_utf8_concat};

/// An Assuan server response line.
///
/// All data is owned. Use the convenience constructors for common responses:
/// `Response::Okay(None)` is a plain `OK`, [`Response::ok`] an `OK` with a
/// message, [`Response::err`] an `ERR` line.
#[derive(Debug, Clone, PartialEq, Eq)]
pub enum Response {
    /// OK response with an optional message.
    Okay(Option<String>),
    /// ERR response with an error code and optional message.
    Error(ErrorCode, Option<String>),
    /// S (status) response with a keyword and value.
    Status(String, String),
    /// # comment line (debugging only, ignored by the peer).
    Comment(String),
    /// D data line — percent-encoded on the wire.
    Data(Vec<u8>),
    /// INQUIRE — server requests data from the client.
    Inquire(String, String),
}

/// What a response stands for, with its text given as UTF-8 bytes.
pub enum ResponseModel {
    Okay(Option<Seq<u8>>),
    Error(u32, Option<Seq<u8>>),
    Status(Seq<u8>, Seq<u8>),
    Comment(Seq<u8>),
    Data(Seq<u8>),
    Inquire(Seq<u8>, Seq<u8>),
}

impl View for Response {
    type V = ResponseModel;

    open spec fn view(&self) -> ResponseModel {
        match self {
            Response::Okay(m) => ResponseModel::Okay(opt_utf8(*m)),
            Response::Error(c, m) => ResponseModel::Error(c.number(), opt_utf8(*m)),
            Response::Status(k, v) => ResponseModel::Status(utf8_of(k@), utf8_of(v@)),
            Response::Comment(s) => ResponseModel::Comment(utf8_of(s@)),
            Response::Data(d) => ResponseModel::Data(d@),
            Response::Inquire(k, p) => ResponseModel::Inquire(utf8_of(k@), utf8_of(p@)),
        }
    }
}

/// The word that starts each kind of response line.
pub enum Keyword {
    Okay,
    Error,
    Status,
    Comment,
    Data,
    Inquire,
}

/// The bytes of a response keyword.
pub open spec fn keyword_word(k: Keyword) -> Seq<u8> {
    match k {
        Keyword::Okay => seq![0x4fu8, 0x4b],
        Keyword::Error => seq![0x45u8, 0x52, 0x52],
        Keyword::Status => seq![0x53u8],
        Keyword::Comment => seq![0x23u8],
        Keyword::Data => seq![0x44u8],
        Keyword::Inquire => seq![0x49u8, 0x4e, 0x51, 0x55, 0x49, 0x52, 0x45],
    }
}

/// The keyword and a space: the head of every response line but a bare `OK`.
pub open spec fn head(k: Keyword) -> Seq<u8> {
    keyword_word(k) + seq![SPACE]
}

/// `word text`, with ` more` after it when `more` is not empty.
pub open spec fn spaced(word: Seq<u8>, text: Seq<u8>, more: Seq<u8>) -> Seq<u8> {
    if more.len() == 0 {
        word + seq![SPACE] + text
    } else {
        word + seq![SPACE] + text + seq![SPACE] + more
    }
}

/// The line that a response is written as, without its newline.
pub open spec fn response_line(r: ResponseModel) -> Seq<u8> {
    match r {
        ResponseModel::Okay(None) => keyword_word(Keyword::Okay),
        ResponseModel::Okay(Some(m)) => head(Keyword::Okay) + m,
        ResponseModel::Error(c, None) => head(Keyword::Error) + decimal(c as nat),
        ResponseModel::Error(c, Some(m)) => head(Keyword::Error) + decimal(c as nat)
            + seq![SPACE] + m,
        ResponseModel::Status(k, v) => spaced(keyword_word(Keyword::Status), k, v),
        ResponseModel::Comment(s) => head(Keyword::Comment) + s,
        ResponseModel::Data(d) => head(Keyword::Data) + percent_encode(d),
        ResponseModel::Inquire(k, p) => spaced(keyword_word(Keyword::Inquire), k, p),
    }
}

/// Whether a response is short enough to be written: its line, newline
/// included, is at most `MAX_LINE_SIZE` bytes; for data, the payload is
/// short enough for its worst-case encoding (three bytes a byte) to fit.
pub open spec fn response_fits(r: ResponseModel) -> bool {
    match r {
        ResponseModel::Data(d) => 3 * d.len() <= MAX_LINE_SIZE - 3,
        _ => response_line(r).len() + 1 <= MAX_LINE_SIZE,
    }
}

/// The text that a response is shown as: its line, with data shown as
/// `D <data>`.
pub open spec fn response_text(r: ResponseModel) -> Seq<u8> {
    match r {
        ResponseModel::Data(_) => data_placeholder(),
        _ => response_line(r),
    }
}

/// The bytes of a response keyword.
fn keyword(k: Keyword) -> (w: &'static [u8])
    ensures
        w@ == keyword_word(k),
{
    let w: &'static [u8] = match k {
        Keyword::Okay => &[0x4f, 0x4b],
        Keyword::Error => &[0x45, 0x52, 0x52],
        Keyword::Status => &[0x53],
        Keyword::Comment => &[0x23],
        Keyword::Data => &[0x44],
        Keyword::Inquire => &[0x49, 0x4e, 0x51, 0x55, 0x49, 0x52, 0x45],
    };
    assert(w@ =~= keyword_word(k));
    w
}

/// The bytes of `word text`, with ` more` after it when `more` is not empty.
fn spaced_line(word: &[u8], text: &str, more: &str) -> (v: Vec<u8>)
    ensures
        v@ == spaced(word@, utf8_of(text@), utf8_of(more@)),
{
    let mut line: Vec<u8> = Vec::new();
    push_all(&mut line, word);
    line.push(SPACE);
    push_all(&mut line, text.as_bytes());
    proof {
        lemma_utf8_empty(more@);
    }
    if !more.is_empty() {
        line.push(SPACE);
        push_all(&mut line, more.as_bytes());
    }
    line
}

/// Write an OK line (`OK [message]\n`).
pub(crate) fn write_ok(w: &mut Vec<u8>, msg: Option<&str>) -> (r: Result<usize, Error>)
    ensures
        ({
            let line = match msg {
                None => keyword_word(Keyword::Okay),
                Some(m) => head(Keyword::Okay) + utf8_of(m@),
            };
            &&& r is Ok <==> line.len() + 1 <= MAX_LINE_SIZE
            &&& r matches Ok(n) ==> n == line.len() + 1 && final(w)@ == old(w)@ + line + seq![LF]
            &&& r matches Err(e) ==> is_line_too_long(e) && final(w)@ == old(w)@
        }),
{
    match msg {
        None => write_line(w, keyword(Keyword::Okay)),
        Some(msg) => {
            let mut line: Vec<u8> = Vec::new();
            push_all(&mut line, keyword(Keyword::Okay));
            line.push(SPACE);
            push_all(&mut line, msg.as_bytes());
            write_line(w, line.as_slice())
        },
    }
}

/// Write an ERR line (`ERR code [message]\n`).
pub(crate) fn write_err(w: &mut Vec<u8>, code: ErrorCode, msg: Option<&str>) -> (r: Result<usize, Error>)
    ensures
        ({
            let digits = decimal(code.number() as nat);
            let line = match msg {
                None => head(Keyword::Error) + digits,
                Some(m) => head(Keyword::Error) + digits + seq![SPACE] + utf8_of(m@),
            };
            &&& r is Ok <==> line.len() + 1 <= MAX_LINE_SIZE
            &&& r matches Ok(n) ==> n == line.len() + 1 && final(w)@ == old(w)@ + line + seq![LF]
            &&& r matches Err(e) ==> is_line_too_long(e) && final(w)@ == old(w)@
        }),
{
    let code_str = crate::number::decimal_bytes(code.value());
    let mut line: Vec<u8> = Vec::new();
    push_all(&mut line, keyword(Keyword::Error));
    line.push(SPACE);
    push_all(&mut line, code_str.as_slice());
    match msg {
        None => {},
        Some(msg) => {
            line.push(SPACE);
            push_all(&mut line, msg.as_bytes());
        },
    }
    write_line(w, line.as_slice())
}

/// Write a status line (`S keyword [value]\n`).
pub(crate) fn write_status(w: &mut Vec<u8>, keyword_text: &str, value: &str) -> (r: Result<usize, Error>)
    ensures
        ({
            let line = spaced(keyword_word(Keyword::Status), utf8_of(keyword_text@), utf8_of(value@));
            &&& r is Ok <==> line.len() + 1 <= MAX_LINE_SIZE
            &&& r matches Ok(n) ==> n == line.len() + 1 && final(w)@ == old(w)@ + line + seq![LF]
            &&& r matches Err(e) ==> is_line_too_long(e) && final(w)@ == old(w)@
        }),
{
    let line = spaced_line(keyword(Keyword::Status), keyword_text, value);
    write_line(w, line.as_slice())
}

/// Write a comment line (`# comment\n`).
pub(crate) fn write_comment(w: &mut Vec<u8>, comment: &str) -> (r: Result<usize, Error>)
    ensures
        ({
            let line = head(Keyword::Comment) + utf8_of(comment@);
            &&& r is Ok <==> line.len() + 1 <= MAX_LINE_SIZE
            &&& r matches Ok(n) ==> n == line.len() + 1 && final(w)@ == old(w)@ + line + seq![LF]
            &&& r matches Err(e) ==> is_line_too_long(e) && final(w)@ == old(w)@
        }),
{
    let mut line: Vec<u8> = Vec::new();
    push_all(&mut line, keyword(Keyword::Comment));
    line.push(SPACE);
    push_all(&mut line, comment.as_bytes());
    write_line(w, line.as_slice())
}

/// Write an INQUIRE line (`INQUIRE keyword [params]\n`).
pub(crate) fn write_inquire(w: &mut Vec<u8>, keyword_text: &str, params: &str) -> (r: Result<usize, Error>)
    ensures
        ({
            let line = spaced(keyword_word(Keyword::Inquire), utf8_of(keyword_text@), utf8_of(params@));
            &&& r is Ok <==> line.len() + 1 <= MAX_LINE_SIZE
            &&& r matches Ok(n) ==> n == line.len() + 1 && final(w)@ == old(w)@ + line + seq![LF]
            &&& r matches Err(e) ==> is_line_too_long(e) && final(w)@ == old(w)@
        }),
{
    let line = spaced_line(keyword(Keyword::Inquire), keyword_text, params);
    write_line(w, line.as_slice())
}

/// The optional message as a string slice.
fn opt_str(m: &Option<String>) -> (r: Option<&str>)
    ensures
        match r {
            None => m is None,
            Some(s) => m matches Some(t) && s@ == t@,
        },
{
    match m {
        Some(s) => Some(s.as_str()),
        None => None,
    }
}

impl Response {
    /// Create an OK response with a message.
    pub fn ok<M: IntoText>(msg: M) -> (r: Self)
        ensures
            r matches Response::Okay(Some(m)) && m@ == msg.text(),
    {
        Response::Okay(Some(msg.into_text()))
    }

    /// Create an ERR response with a code and optional message.
    pub fn err(code: ErrorCode, msg: Option<String>) -> (r: Self)
        ensures
            r == Response::Error(code, msg),
    {
        Response::Error(code, msg)
    }

    /// Create a status response.
    pub fn status<K: IntoText, V: IntoText>(keyword: K, value: V) -> (r: Self)
        ensures
            r matches Response::Status(k, v) && k@ == keyword.text() && v@ == value.text(),
    {
        Response::Status(keyword.into_text(), value.into_text())
    }

    /// Create a data response.
    pub fn data(bytes: Vec<u8>) -> (r: Self)
        ensures
            r == Response::Data(bytes),
    {
        Response::Data(bytes)
    }

    /// Create an INQUIRE response.
    pub fn inquire<K: IntoText, P: IntoText>(keyword: K, params: P) -> (r: Self)
        ensures
            r matches Response::Inquire(k, p) && k@ == keyword.text() && p@ == params.text(),
    {
        Response::Inquire(keyword.into_text(), params.into_text())
    }

    /// Write this response, with its newline, to the end of `w`.
    ///
    /// Returns the number of bytes written. Enforces [`MAX_LINE_SIZE`]: a
    /// response that does not fit leaves `w` as it was.
    pub fn write_to(&self, w: &mut Vec<u8>) -> (r: Result<usize, Error>)
        ensures
            r is Ok <==> response_fits(self@),
            r matches Ok(n) ==> n == response_line(self@).len() + 1 && final(w)@ == old(w)@
                + response_line(self@) + seq![LF],
            r matches Err(e) ==> is_line_too_long(e) && final(w)@ == old(w)@,
    {
        match self {
            Response::Okay(msg) => write_ok(w, opt_str(msg)),
            Response::Error(code, msg) => write_err(w, *code, opt_str(msg)),
            Response::Status(kw, val) => write_status(w, kw.as_str(), val.as_str()),
            Response::Comment(s) => write_comment(w, s.as_str()),
            Response::Data(data) => write_data(w, data.as_slice()),
            Response::Inquire(kw, params) => write_inquire(w, kw.as_str(), params.as_str()),
        }
    }
}

/// The first word of `s` and, when `s` has a space, what follows its first
/// space.
pub open spec fn split_word(s: Seq<u8>) -> (Seq<u8>, Option<Seq<u8>>) {
    let p = find_byte(s, SPACE);
    if p < s.len() {
        (s.subrange(0, p), Some(s.subrange(p + 1, s.len() as int)))
    } else {
        (s, None)
    }
}

/// `s` without its first `n` bytes.
pub open spec fn after(s: Seq<u8>, n: int) -> Seq<u8> {
    s.subrange(n, s.len() as int)
}

/// The response that a line stands for, or `None` when it does not parse.
///
/// The line must be non-empty UTF-8. It is read by its first characters:
/// `OK` (then a message after a space, if there is one), `ERR ` (a decimal
/// code up to the next space, then a message if there is a space), `S `
/// (a keyword up to the next space, then a value), `# ` (a comment), `D `
/// (percent-encoded data that must decode to UTF-8) and `INQUIRE ` (a keyword
/// up to the next space, then parameters).
pub open spec fn parse_response(line: Seq<u8>) -> Option<ResponseModel> {
    if line.len() == 0 || !valid_utf8(line) {
        None
    } else if has_prefix(line, keyword_word(Keyword::Okay)) {
        let rest = after(line, 2);
        Some(
            ResponseModel::Okay(
                if rest.len() > 0 && rest[0] == SPACE {
                    Some(after(rest, 1))
                } else {
                    None
                },
            ),
        )
    } else if has_prefix(line, head(Keyword::Error)) {
        let (code, msg) = split_word(after(line, 4));
        match parse_u32(code) {
            Some(n) => Some(ResponseModel::Error(n, msg)),
            None => None,
        }
    } else if has_prefix(line, head(Keyword::Status)) {
        let (k, v) = split_word(after(line, 2));
        Some(ResponseModel::Status(k, args_or_empty(v)))
    } else if has_prefix(line, head(Keyword::Comment)) {
        Some(ResponseModel::Comment(after(line, 2)))
    } else if has_prefix(line, head(Keyword::Data)) {
        let d = percent_decode(after(line, 2));
        if valid_utf8(d) {
            Some(ResponseModel::Data(d))
        } else {
            None
        }
    } else if has_prefix(line, head(Keyword::Inquire)) {
        let (k, p) = split_word(after(line, 8));
        Some(ResponseModel::Inquire(k, args_or_empty(p)))
    } else {
        None
    }
}

/// The bytes of a response keyword and a space.
fn head_bytes(k: Keyword) -> (w: &'static [u8])
    ensures
        w@ == head(k),
{
    let w: &'static [u8] = match k {
        Keyword::Okay => &[0x4f, 0x4b, 0x20],
        Keyword::Error => &[0x45, 0x52, 0x52, 0x20],
        Keyword::Status => &[0x53, 0x20],
        Keyword::Comment => &[0x23, 0x20],
        Keyword::Data => &[0x44, 0x20],
        Keyword::Inquire => &[0x49, 0x4e, 0x51, 0x55, 0x49, 0x52, 0x45, 0x20],
    };
    assert(w@ =~= head(k));
    w
}

/// The text of `line[from..to]`, which is well-formed UTF-8.
fn text_of(line: &[u8], from: usize, to: usize) -> (s: String)
    requires
        from <= to <= line@.len(),
        valid_utf8(line@.subrange(from as int, to as int)),
    ensures
        utf8_of(s@) == line@.subrange(from as int, to as int),
{
    bytes_to_string(&line[from..to])
}

/// The first word of `line[from..]` and, after its first space, the rest.
fn split_word_at(line: &[u8], from: usize) -> (r: (String, Option<String>))
    requires
        from <= line@.len(),
        valid_utf8(line@),
        from > 0 ==> line@[from - 1] == SPACE,
    ensures
        ({
            let (w, rest) = split_word(after(line@, from as int));
            utf8_of(r.0@) == w && opt_utf8(r.1) == rest
        }),
{
    let len = line.len();
    let p = position(line, from, len, SPACE);
    let ghost s = after(line@, from as int);
    assert(line@.subrange(from as int, len as int) == s);
    proof {
        crate::wire::lemma_find_byte(s, SPACE);
        lemma_valid_piece(line@, from as int, p as int);
    }
    let word = text_of(line, from, p);
    if p < len {
        proof {
            lemma_valid_piece(line@, p + 1, len as int);
        }
        assert(s.subrange(0, p - from) =~= line@.subrange(from as int, p as int));
        assert(s.subrange(p - from + 1, s.len() as int) =~= line@.subrange(p + 1, len as int));
        (word, Some(text_of(line, p + 1, len)))
    } else {
        assert(s =~= line@.subrange(from as int, p as int));
        (word, None)
    }
}

/// Reads a response from the bytes of a line.
fn parse_line(line: &[u8]) -> (r: Result<Response, Error>)
    ensures
        r is Ok <==> parse_response(line@) is Some,
        r matches Ok(resp) ==> parse_response(line@) == Some(resp@),
        r matches Err(e) ==> is_malformed(e),
{
    let len = line.len();
    if len == 0 {
        return Err(Error::malformed());
    }
    if str_from_utf8(line).is_none() {
        return Err(Error::malformed());
    }
    if starts_with(line, keyword(Keyword::Okay)) {
        if len > 2 && line[2] == SPACE {
            proof {
                lemma_valid_piece(line@, 3, len as int);
            }
            let ghost rest = after(line@, 2);
            assert(after(rest, 1) =~= line@.subrange(3, len as int));
            return Ok(Response::Okay(Some(text_of(line, 3, len))));
        }
        return Ok(Response::Okay(None));
    }
    if starts_with(line, head_bytes(Keyword::Error)) {
        let p = position(line, 4, len, SPACE);
        let ghost s = after(line@, 4);
        assert(line@.subrange(4, len as int) == s);
        proof {
            crate::wire::lemma_find_byte(s, SPACE);
        }
        let ghost code = split_word(s).0;
        if p < len {
            assert(code =~= line@.subrange(4, p as int));
        } else {
            assert(code =~= line@.subrange(4, p as int));
        }
        return match parse_u32_bytes(&line[4..p]) {
            Some(n) => {
                assert(line@[3] == head(Keyword::Error)[3]);
                let (_, msg) = split_word_at(line, 4);
                proof {
                    crate::error::lemma_code_of(n);
                }
                Ok(Response::Error(crate::error::ErrorCode(n), msg))
            },
            None => Err(Error::malformed()),
        };
    }
    if starts_with(line, head_bytes(Keyword::Status)) {
        assert(line@[1] == head(Keyword::Status)[1]);
        let (kw, value) = split_word_at(line, 2);
        let value = match value {
            Some(v) => v,
            None => String::new(),
        };
        return Ok(Response::Status(kw, value));
    }
    if starts_with(line, head_bytes(Keyword::Comment)) {
        assert(line@[1] == head(Keyword::Comment)[1]);
        proof {
            lemma_valid_piece(line@, 2, len as int);
        }
        return Ok(Response::Comment(text_of(line, 2, len)));
    }
    if starts_with(line, head_bytes(Keyword::Data)) {
        let mut data: Vec<u8> = Vec::new();
        push_all(&mut data, &line[2..len]);
        assert(data@ =~= after(line@, 2));
        return match percent::decode_in_place(data.as_mut_slice()) {
            Ok(decoded) => {
                proof {
                    lemma_str_chars(decoded);
                    lemma_utf8_round(decoded.spec_bytes());
                }
                Ok(Response::Data(str_bytes(decoded)))
            },
            Err(e) => Err(e),
        };
    }
    if starts_with(line, head_bytes(Keyword::Inquire)) {
        assert(line@[7] == head(Keyword::Inquire)[7]);
        let (kw, params) = split_word_at(line, 8);
        let params = match params {
            Some(v) => v,
            None => String::new(),
        };
        return Ok(Response::Inquire(kw, params));
    }
    Err(Error::malformed())
}

impl Response {
    /// Parse a raw line into a response.
    ///
    /// The input should come from [`LineReader::read`](crate::line_reader::LineReader::read),
    /// which already strips trailing LF/CRLF. The line is left as it is.
    pub fn parse(line: &mut [u8]) -> (r: Result<Self, Error>)
        ensures
            final(line)@ == old(line)@,
            r is Ok <==> parse_response(old(line)@) is Some,
            r matches Ok(resp) ==> parse_response(old(line)@) == Some(resp@),
            r matches Err(e) ==> is_malformed(e),
    {
        parse_line(line)
    }
}

impl Response {
    /// The text this response is shown as: its line, with data shown as
    /// `D <data>`.
    pub fn to_string(&self) -> (s: String)
        ensures
            utf8_of(s@) == response_text(self@),
    {
        let mut out: Vec<u8> = Vec::new();
        match self {
            Response::Okay(None) => push_all(&mut out, keyword(Keyword::Okay)),
            Response::Okay(Some(m)) => {
                push_all(&mut out, head_bytes(Keyword::Okay));
                push_all(&mut out, m.as_str().as_bytes());
            },
            Response::Error(code, msg) => {
                push_all(&mut out, head_bytes(Keyword::Error));
                let digits = crate::number::decimal_bytes(code.value());
                push_all(&mut out, digits.as_slice());
                match msg {
                    Some(m) => {
                        out.push(SPACE);
                        push_all(&mut out, m.as_str().as_bytes());
                    },
                    None => {},
                }
            },
            Response::Status(k, v) => {
                out = spaced_line(keyword(Keyword::Status), k.as_str(), v.as_str());
            },
            Response::Comment(c) => {
                push_all(&mut out, head_bytes(Keyword::Comment));
                push_all(&mut out, c.as_str().as_bytes());
            },
            Response::Data(_) => push_all(&mut out, placeholder()),
            Response::Inquire(k, p) => {
                out = spaced_line(keyword(Keyword::Inquire), k.as_str(), p.as_str());
            },
        }
        assert(out@ == response_text(self@));
        proof {
            lemma_response_text_valid(self@);
        }
        bytes_to_string(out.as_slice())
    }
}

/// The response that an error is answered with: a protocol error as its
/// code and message, an I/O error as a general error with the message
/// `I/O error`.
pub open spec fn error_response(e: Error) -> ResponseModel {
    match e {
        Error::Protocol { code, msg } => ResponseModel::Error(code.number(), opt_utf8(msg)),
        Error::Io(_) => ResponseModel::Error(ErrorCode::GENERAL.number(), Some(utf8_of("I/O error"@))),
    }
}

impl From<Error> for Response {
    fn from(e: Error) -> (r: Self)
        ensures
            r@ == error_response(e),
    {
        match e {
            Error::Protocol { code, msg } => Response::Error(code, msg),
            Error::Io(_) => Response::Error(ErrorCode::GENERAL, Some("I/O error".into_text())),
        }
    }
}

impl vstd::std_specs::convert::FromSpecImpl<Error> for Response {
    /// Strings are known by their text only, so the response is not pinned
    /// down as a value; `from` states its model instead.
    open spec fn obeys_from_spec() -> bool {
        false
    }

    open spec fn from_spec(e: Error) -> Response {
        choose|r: Response| r@ == error_response(e)
    }
}

/// Whether the text fields of a response model are well-formed UTF-8.
pub open spec fn response_model_wf(r: ResponseModel) -> bool {
    match r {
        ResponseModel::Okay(m) => m matches Some(t) ==> valid_utf8(t),
        ResponseModel::Error(_, m) => m matches Some(t) ==> valid_utf8(t),
        ResponseModel::Status(k, v) => valid_utf8(k) && valid_utf8(v),
        ResponseModel::Comment(s) => valid_utf8(s),
        ResponseModel::Data(_) => true,
        ResponseModel::Inquire(k, p) => valid_utf8(k) && valid_utf8(p),
    }
}

/// The model of a response is well-formed.
pub proof fn lemma_response_view_wf(r: &Response)
    ensures
        response_model_wf(r@),
{
}

/// The response keywords, and a space after them, are ASCII.
proof fn lemma_keyword_valid(k: Keyword)
    ensures
        valid_utf8(keyword_word(k)),
        valid_utf8(head(k)),
{
    lemma_ascii_valid_utf8(keyword_word(k));
    lemma_ascii_valid_utf8(head(k));
}

/// A keyword line of well-formed strings is well-formed UTF-8.
proof fn lemma_spaced_valid(k: Keyword, text: Seq<u8>, more: Seq<u8>)
    requires
        valid_utf8(text),
        valid_utf8(more),
    ensures
        valid_utf8(spaced(keyword_word(k), text, more)),
{
    lemma_keyword_valid(k);
    lemma_ascii_valid_utf8(seq![SPACE]);
    let w = keyword_word(k);
    valid_utf8_concat(w, seq![SPACE]);
    valid_utf8_concat(w + seq![SPACE], text);
    valid_utf8_concat(w + seq![SPACE] + text, seq![SPACE]);
    valid_utf8_concat(w + seq![SPACE] + text + seq![SPACE], more);
}

/// The text of a response with well-formed strings is well-formed UTF-8.
proof fn lemma_response_text_valid(r: ResponseModel)
    requires
        response_model_wf(r),
    ensures
        valid_utf8(response_text(r)),
{
    lemma_ascii_valid_utf8(seq![SPACE]);
    match r {
        ResponseModel::Okay(m) => {
            lemma_keyword_valid(Keyword::Okay);
            if let Some(t) = m {
                valid_utf8_concat(head(Keyword::Okay), t);
            }
        },
        ResponseModel::Error(c, m) => {
            lemma_keyword_valid(Keyword::Error);
            crate::number::lemma_decimal(c as nat);
            lemma_ascii_valid_utf8(decimal(c as nat));
            valid_utf8_concat(head(Keyword::Error), decimal(c as nat));
            if let Some(t) = m {
                valid_utf8_concat(head(Keyword::Error) + decimal(c as nat), seq![SPACE]);
            }
        },
        ResponseModel::Status(k, v) => lemma_spaced_valid(Keyword::Status, k, v),
        ResponseModel::Comment(s) => {
            lemma_keyword_valid(Keyword::Comment);
            valid_utf8_concat(head(Keyword::Comment), s);
        },
        ResponseModel::Data(_) => lemma_ascii_valid_utf8(data_placeholder()),
        ResponseModel::Inquire(k, p) => lemma_spaced_valid(Keyword::Inquire, k, p),
    }
}

/// Whether a response is written as a line that reads back as the same
/// response: a status or inquire keyword must be one word, and data must be
/// UTF-8.
pub open spec fn response_reparses(r: ResponseModel) -> bool {
    match r {
        ResponseModel::Status(k, _) => find_byte(k, SPACE) == k.len(),
        ResponseModel::Data(d) => valid_utf8(d),
        ResponseModel::Inquire(k, _) => find_byte(k, SPACE) == k.len(),
        _ => true,
    }
}

/// A line that does not start with the first byte of `w` does not start with `w`.
proof fn lemma_not_prefix(line: Seq<u8>, w: Seq<u8>)
    requires
        w.len() > 0,
        line.len() > 0,
        line[0] != w[0],
    ensures
        !has_prefix(line, w),
{
    if has_prefix(line, w) {
        assert(line.subrange(0, w.len() as int)[0] == line[0]);
    }
}

/// `a + b` starts with `a`, and `b` follows it.
proof fn lemma_prefix(a: Seq<u8>, b: Seq<u8>)
    ensures
        has_prefix(a + b, a),
        after(a + b, a.len() as int) == b,
{
    assert((a + b).subrange(0, a.len() as int) =~= a);
    assert(after(a + b, a.len() as int) =~= b);
}

/// What `split_word` makes of one word, with or without a space and more
/// text after it.
proof fn lemma_split_word(w: Seq<u8>, more: Option<Seq<u8>>)
    requires
        find_byte(w, SPACE) == w.len(),
    ensures
        split_word(
            match more {
                None => w,
                Some(m) => w + seq![SPACE] + m,
            },
        ) == (w, more),
{
    match more {
        None => {
            assert(w.subrange(0, w.len() as int) =~= w);
        },
        Some(m) => {
            let s = w + seq![SPACE] + m;
            crate::wire::lemma_find_byte_after(w, SPACE, m);
            assert(s.subrange(0, w.len() as int) =~= w);
            assert(s.subrange(w.len() as int + 1, s.len() as int) =~= m);
        },
    }
}

/// An error response round-trips.
proof fn lemma_error_round_trip(c: u32, m: Option<Seq<u8>>)
    requires
        response_model_wf(ResponseModel::Error(c, m)),
    ensures
        parse_response(response_line(ResponseModel::Error(c, m))) == Some(
            ResponseModel::Error(c, m),
        ),
{
    let r = ResponseModel::Error(c, m);
    let digits = decimal(c as nat);
    let body = match m {
        None => digits,
        Some(t) => digits + seq![SPACE] + t,
    };
    let line = response_line(r);
    assert(line =~= head(Keyword::Error) + body);
    lemma_response_text_valid(r);
    lemma_prefix(head(Keyword::Error), body);
    lemma_not_prefix(line, keyword_word(Keyword::Okay));
    crate::number::lemma_decimal(c as nat);
    assert forall|i: int| 0 <= i < digits.len() implies digits[i] != SPACE by {
        assert(crate::number::is_digit(digits[i]));
    }
    crate::wire::lemma_find_byte_at(digits, SPACE, digits.len() as int);
    lemma_split_word(digits, m);
    crate::number::lemma_parse_decimal(c);
}

/// A keyword line with a one-word keyword reads back as its keyword and text.
proof fn lemma_spaced_split(k: Keyword, text: Seq<u8>, more: Seq<u8>)
    requires
        find_byte(text, SPACE) == text.len(),
    ensures
        has_prefix(spaced(keyword_word(k), text, more), head(k)),
        ({
            let (w, rest) = split_word(after(spaced(keyword_word(k), text, more), head(k).len() as int));
            w == text && args_or_empty(rest) == more
        }),
{
    let line = spaced(keyword_word(k), text, more);
    if more.len() == 0 {
        lemma_prefix(head(k), text);
        lemma_split_word(text, None);
    } else {
        assert(line =~= head(k) + (text + seq![SPACE] + more));
        lemma_prefix(head(k), text + seq![SPACE] + more);
        lemma_split_word(text, Some(more));
    }
}

/// A response whose line reads back as itself does so: parsing the line
/// that `write_to` writes, without its newline, gives the response back.
pub proof fn lemma_response_round_trip(r: ResponseModel)
    requires
        response_model_wf(r),
        response_reparses(r),
    ensures
        parse_response(response_line(r)) == Some(r),
{
    lemma_response_text_valid(r);
    let line = response_line(r);
    match r {
        ResponseModel::Okay(None) => {
            assert(line.subrange(0, 2) =~= keyword_word(Keyword::Okay));
        },
        ResponseModel::Okay(Some(m)) => {
            assert(line.subrange(0, 2) =~= keyword_word(Keyword::Okay));
            let rest = after(line, 2);
            assert(rest[0] == SPACE);
            assert(after(rest, 1) =~= m);
        },
        ResponseModel::Error(c, m) => lemma_error_round_trip(c, m),
        ResponseModel::Status(k, v) => {
            lemma_spaced_split(Keyword::Status, k, v);
            lemma_not_prefix(line, keyword_word(Keyword::Okay));
            lemma_not_prefix(line, head(Keyword::Error));
        },
        ResponseModel::Comment(s) => {
            lemma_prefix(head(Keyword::Comment), s);
            lemma_not_prefix(line, keyword_word(Keyword::Okay));
            lemma_not_prefix(line, head(Keyword::Error));
            lemma_not_prefix(line, head(Keyword::Status));
        },
        ResponseModel::Data(d) => {
            lemma_prefix(head(Keyword::Data), percent_encode(d));
            lemma_not_prefix(line, keyword_word(Keyword::Okay));
            lemma_not_prefix(line, head(Keyword::Error));
            lemma_not_prefix(line, head(Keyword::Status));
            lemma_not_prefix(line, head(Keyword::Comment));
            crate::percent::lemma_decode_encode(d);
            crate::percent::lemma_encode_ascii(d);
            lemma_ascii_valid_utf8(percent_encode(d));
            lemma_keyword_valid(Keyword::Data);
        },
        ResponseModel::Inquire(k, p) => {
            lemma_spaced_split(Keyword::Inquire, k, p);
            lemma_not_prefix(line, keyword_word(Keyword::Okay));
            lemma_not_prefix(line, head(Keyword::Error));
            lemma_not_prefix(line, head(Keyword::Status));
            lemma_not_prefix(line, head(Keyword::Comment));
            lemma_not_prefix(line, head(Keyword::Data));
        },
    }
}

/// What `write_to` writes is one line of at most `MAX_LINE_SIZE` bytes,
/// its newline included.
pub proof fn lemma_written_response_fits(r: ResponseModel)
    requires
        response_fits(r),
    ensures
        response_line(r).len() + 1 <= MAX_LINE_SIZE,
{
    if let ResponseModel::Data(d) = r {
        crate::percent::lemma_encode_len(d);
    }
}

/// Each response is written after its own fixed word: `OK [message]`,
/// `ERR code [message]`, `S keyword [value]`, `# comment`, `D <encoded
/// data>` and `INQUIRE keyword [params]`.
pub proof fn lemma_response_words(m: Seq<u8>, code: u32, k: Seq<u8>, v: Seq<u8>, c: Seq<u8>, d: Seq<u8>)
    ensures
        response_line(ResponseModel::Okay(None)) == seq![0x4fu8, 0x4b],
        response_line(ResponseModel::Okay(Some(m))) == seq![0x4fu8, 0x4b, 0x20] + m,
        response_line(ResponseModel::Error(code, None)) == seq![0x45u8, 0x52, 0x52, 0x20] + decimal(code as nat),
        response_line(ResponseModel::Error(code, Some(m))) == seq![0x45u8, 0x52, 0x52, 0x20] + decimal(code as nat)
            + seq![0x20u8] + m,
        response_line(ResponseModel::Status(k, Seq::empty())) == seq![0x53u8, 0x20] + k,
        v.len() > 0 ==> response_line(ResponseModel::Status(k, v)) == seq![0x53u8, 0x20] + k + seq![0x20u8]
            + v,
        response_line(ResponseModel::Comment(c)) == seq![0x23u8, 0x20] + c,
        response_line(ResponseModel::Data(d)) == seq![0x44u8, 0x20] + percent_encode(d),
        response_line(ResponseModel::Inquire(k, Seq::empty())) == seq![0x49u8, 0x4e, 0x51, 0x55, 0x49, 0x52, 0x45, 0x20] + k,
        v.len() > 0 ==> response_line(ResponseModel::Inquire(k, v)) == seq![0x49u8, 0x4e, 0x51, 0x55, 0x49, 0x52, 0x45, 0x20] + k
            + seq![0x20u8] + v,
{
    assert(keyword_word(Keyword::Okay) =~= seq![0x4fu8, 0x4b]);
    assert(head(Keyword::Okay) =~= seq![0x4fu8, 0x4b, 0x20]);
    assert(head(Keyword::Error) =~= seq![0x45u8, 0x52, 0x52, 0x20]);
    assert(keyword_word(Keyword::Status) + seq![SPACE] =~= seq![0x53u8, 0x20]);
    assert(head(Keyword::Comment) =~= seq![0x23u8, 0x20]);
    assert(head(Keyword::Data) =~= seq![0x44u8, 0x20]);
    assert(keyword_word(Keyword::Inquire) + seq![SPACE] =~= seq![0x49u8, 0x4e, 0x51, 0x55, 0x49, 0x52, 0x45, 0x20]);
}

} // verus!
