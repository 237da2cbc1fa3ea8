//! Assuan request types, parsing and writing.
//!
//! The [`Request`] enum represents all client-side request lines in the Assuan
//! protocol, covering both protocol-level commands and application commands.
use vstd::prelude::*;
use vstd::string::StringSliceAdditionalSpecFns;
use vstd::utf8::*;

use crate::error::{is_line_too_long, is_malformed, Error};
use crate::percent::{self, lemma_decode_shrinks, percent_decode, percent_encode};
use crate::text::{
    bytes_to_string, lemma_ascii_valid_utf8, lemma_utf8_empty, lemma_str_chars, push_all, str_bytes, str_from_utf8,
    trim, trim_utf8, utf8_of,
};
use crate::wire::{bytes_eq, find_byte, lemma_split_at_ascii, position, strip_eol, CR, LF, SPACE};
use crate::MAX_LINE_SIZE;

verus! {

broadcast use {encode_utf8_valid_utf8, valid_utf8_concat};

/// An Assuan client request.
///
/// Covers protocol-level commands (defined by the spec) and application
/// commands (defined by the server). All data is owned.
#[derive(Debug, Clone, PartialEq, Eq)]
pub enum Request {
    /// Close the connection. Server responds with OK.
    Bye,
    /// Reset the connection but not authentication.
    Reset,
    /// No operation. Server responds with OK.
    Nop,
    /// End of data stream (client responds to INQUIRE).
    End,
    /// Cancel the current operation (client responds to INQUIRE).
    Cancel,
    /// Set a connection option (`OPTION name [= value]`).
    SetOption {
        /// The option name.
        key: String,
        /// The option value (empty for boolean flags).
        value: String,
    },
    /// List available commands.
    Help,
    /// Reserved for future extensions.
    Quit,
    /// Reserved for future extensions.
    Auth,
    /// Data line (`D <data>`) — used during INQUIRE responses.
    Data(Vec<u8>),
    /// Comment line (`# ...`) — ignored per the Assuan spec.
    Comment(String),
    /// An application-level command with name and optional arguments.
    Command {
        /// The command name (uppercased).
        name: String,
        /// The percent-decoded arguments, if any.
        args: Option<String>,
    },
}

/// What a request stands for, with its text given as UTF-8 bytes.
pub enum RequestModel {
    Bye,
    Reset,
    Nop,
    End,
    Cancel,
    SetOption { key: Seq<u8>, value: Seq<u8> },
    Help,
    Quit,
    Auth,
    Data(Seq<u8>),
    Comment(Seq<u8>),
    Command { name: Seq<u8>, args: Option<Seq<u8>> },
}

/// The UTF-8 bytes of an optional string.
pub open spec fn opt_utf8(o: Option<String>) -> Option<Seq<u8>> {
    match o {
        Some(s) => Some(utf8_of(s@)),
        None => None,
    }
}

impl View for Request {
    type V = RequestModel;

    open spec fn view(&self) -> RequestModel {
        match self {
            Request::Bye => RequestModel::Bye,
            Request::Reset => RequestModel::Reset,
            Request::Nop => RequestModel::Nop,
            Request::End => RequestModel::End,
            Request::Cancel => RequestModel::Cancel,
            Request::SetOption { key, value } => RequestModel::SetOption {
                key: utf8_of(key@),
                value: utf8_of(value@),
            },
            Request::Help => RequestModel::Help,
            Request::Quit => RequestModel::Quit,
            Request::Auth => RequestModel::Auth,
            Request::Data(d) => RequestModel::Data(d@),
            Request::Comment(s) => RequestModel::Comment(utf8_of(s@)),
            Request::Command { name, args } => RequestModel::Command {
                name: utf8_of(name@),
                args: opt_utf8(*args),
            },
        }
    }
}

/// The verb of a request line: its first word, upper-cased.
pub enum Verb {
    Comment,
    Bye,
    Reset,
    Nop,
    End,
    Cancel,
    Help,
    Quit,
    Auth,
    SetOption,
    Data,
    Other,
}

/// The bytes of the protocol's own verbs.
pub open spec fn verb_word(v: Verb) -> Seq<u8> {
    match v {
        Verb::Comment => seq![0x23u8],
        Verb::Bye => seq![0x42u8, 0x59, 0x45],
        Verb::Reset => seq![0x52u8, 0x45, 0x53, 0x45, 0x54],
        Verb::Nop => seq![0x4eu8, 0x4f, 0x50],
        Verb::End => seq![0x45u8, 0x4e, 0x44],
        Verb::Cancel => seq![0x43u8, 0x41, 0x4e],
        Verb::Help => seq![0x48u8, 0x45, 0x4c, 0x50],
        Verb::Quit => seq![0x51u8, 0x55, 0x49, 0x54],
        Verb::Auth => seq![0x41u8, 0x55, 0x54, 0x48],
        Verb::SetOption => seq![0x4fu8, 0x50, 0x54, 0x49, 0x4f, 0x4e],
        Verb::Data => seq![0x44u8],
        Verb::Other => Seq::empty(),
    }
}

/// The verb that the (upper-cased) first word `cmd` names.
pub open spec fn verb_of(cmd: Seq<u8>) -> Verb {
    if cmd == verb_word(Verb::Comment) {
        Verb::Comment
    } else if cmd == verb_word(Verb::Bye) {
        Verb::Bye
    } else if cmd == verb_word(Verb::Reset) {
        Verb::Reset
    } else if cmd == verb_word(Verb::Nop) {
        Verb::Nop
    } else if cmd == verb_word(Verb::End) {
        Verb::End
    } else if cmd == verb_word(Verb::Cancel) {
        Verb::Cancel
    } else if cmd == verb_word(Verb::Help) {
        Verb::Help
    } else if cmd == verb_word(Verb::Quit) {
        Verb::Quit
    } else if cmd == verb_word(Verb::Auth) {
        Verb::Auth
    } else if cmd == verb_word(Verb::SetOption) {
        Verb::SetOption
    } else if cmd == verb_word(Verb::Data) {
        Verb::Data
    } else {
        Verb::Other
    }
}

/// An ASCII lower-case letter made upper-case; any other byte as it is.
pub open spec fn upper_ascii(b: u8) -> u8 {
    if 0x61 <= b <= 0x7a {
        (b - 32) as u8
    } else {
        b
    }
}

/// `s` with its ASCII lower-case letters made upper-case.
pub open spec fn uppercase(s: Seq<u8>) -> Seq<u8> {
    Seq::new(s.len(), |i: int| upper_ascii(s[i]))
}

/// The `=` byte.
pub const EQUALS: u8 = 0x3d;

/// The key and value that the arguments of `OPTION` give: split at the
/// first `=`, each side trimmed of white space.
pub open spec fn option_args(a: Seq<u8>) -> (Seq<u8>, Seq<u8>) {
    let p = find_byte(a, EQUALS);
    if a.len() == 0 {
        (Seq::empty(), Seq::empty())
    } else if p < a.len() {
        (trim_utf8(a.subrange(0, p)), trim_utf8(a.subrange(p + 1, a.len() as int)))
    } else {
        (trim_utf8(a), Seq::empty())
    }
}

/// The arguments, or nothing.
pub open spec fn args_or_empty(args: Option<Seq<u8>>) -> Seq<u8> {
    match args {
        Some(a) => a,
        None => Seq::empty(),
    }
}

/// The request that a verb, its word and its decoded arguments make.
pub open spec fn request_of(v: Verb, cmd: Seq<u8>, args: Option<Seq<u8>>) -> Option<RequestModel> {
    match v {
        Verb::Comment => Some(RequestModel::Comment(args_or_empty(args))),
        Verb::Bye => Some(RequestModel::Bye),
        Verb::Reset => Some(RequestModel::Reset),
        Verb::Nop => Some(RequestModel::Nop),
        Verb::End => Some(RequestModel::End),
        Verb::Cancel => Some(RequestModel::Cancel),
        Verb::Help => Some(RequestModel::Help),
        Verb::Quit => Some(RequestModel::Quit),
        Verb::Auth => Some(RequestModel::Auth),
        Verb::SetOption => {
            let (key, value) = option_args(args_or_empty(args));
            Some(RequestModel::SetOption { key, value })
        },
        Verb::Data => Some(RequestModel::Data(args_or_empty(args))),
        Verb::Other => Some(RequestModel::Command { name: cmd, args }),
    }
}

/// The request that a line stands for, or `None` when it does not parse.
///
/// A trailing LF or CRLF is dropped; the line must then be non-empty. The
/// first word, up to the first space, is upper-cased and must be UTF-8; the
/// rest after that space, when it is more than the space, is percent-decoded
/// and must be UTF-8.
pub open spec fn parse_request(line: Seq<u8>) -> Option<RequestModel> {
    let l = strip_eol(line);
    let p = find_byte(l, SPACE);
    let cmd = uppercase(l.subrange(0, p));
    let has_args = l.len() - p > 1;
    let dec = percent_decode(l.subrange(p + 1, l.len() as int));
    if l.len() == 0 || !valid_utf8(cmd) || (has_args && !valid_utf8(dec)) {
        None
    } else {
        request_of(
            verb_of(cmd),
            cmd,
            if has_args {
                Some(dec)
            } else {
                None
            },
        )
    }
}

/// The bytes that `Request::parse` leaves in its line: the first word
/// upper-cased and, when the first word is UTF-8, the arguments decoded in
/// place.
pub open spec fn parsed_line(line: Seq<u8>) -> Seq<u8> {
    let l = strip_eol(line);
    let m = l.len();
    let p = find_byte(l, SPACE);
    let cmd = uppercase(l.subrange(0, p));
    let upper = cmd + line.subrange(p, line.len() as int);
    if m == 0 {
        line
    } else if valid_utf8(cmd) && m - p > 1 {
        let dec = percent_decode(l.subrange(p + 1, m as int));
        upper.subrange(0, p + 1) + dec + line.subrange(p + 1 + dec.len(), line.len() as int)
    } else {
        upper
    }
}

/// The line that a request is written as, without its newline.
pub open spec fn request_line(r: RequestModel) -> Seq<u8> {
    match r {
        RequestModel::Bye => verb_word(Verb::Bye),
        RequestModel::Reset => verb_word(Verb::Reset),
        RequestModel::Nop => verb_word(Verb::Nop),
        RequestModel::End => verb_word(Verb::End),
        RequestModel::Cancel => verb_word(Verb::Cancel),
        RequestModel::Help => verb_word(Verb::Help),
        RequestModel::Quit => verb_word(Verb::Quit),
        RequestModel::Auth => verb_word(Verb::Auth),
        RequestModel::SetOption { key, value } => if value.len() == 0 {
            verb_word(Verb::SetOption) + seq![SPACE] + key
        } else {
            verb_word(Verb::SetOption) + seq![SPACE] + key + seq![EQUALS] + value
        },
        RequestModel::Data(d) => verb_word(Verb::Data) + seq![SPACE] + percent_encode(d),
        RequestModel::Comment(s) => verb_word(Verb::Comment) + seq![SPACE] + s,
        RequestModel::Command { name, args } => match args {
            None => name,
            Some(a) => name + seq![SPACE] + percent_encode(a),
        },
    }
}

/// Whether a request is short enough to be written: its line, newline
/// included, is at most `MAX_LINE_SIZE` bytes; for data, the payload is
/// short enough for its worst-case encoding (three bytes a byte) to fit.
pub open spec fn request_fits(r: RequestModel) -> bool {
    match r {
        RequestModel::Data(d) => 3 * d.len() <= MAX_LINE_SIZE - 3,
        _ => request_line(r).len() + 1 <= MAX_LINE_SIZE,
    }
}

/// How a data line is shown: `D <data>`.
pub open spec fn data_placeholder() -> Seq<u8> {
    seq![0x44u8, 0x20, 0x3c, 0x64, 0x61, 0x74, 0x61, 0x3e]
}

/// The text that a request is shown as.
pub open spec fn request_text(r: RequestModel) -> Seq<u8> {
    match r {
        RequestModel::Data(_) => data_placeholder(),
        RequestModel::Command { name, args } => match args {
            None => name,
            Some(a) => name + seq![SPACE] + a,
        },
        _ => request_line(r),
    }
}

/// The bytes of a protocol verb.
pub(crate) fn word(v: Verb) -> (w: &'static [u8])
    ensures
        w@ == verb_word(v),
{
    let w: &'static [u8] = match v {
        Verb::Comment => &[0x23],
        Verb::Bye => &[0x42, 0x59, 0x45],
        Verb::Reset => &[0x52, 0x45, 0x53, 0x45, 0x54],
        Verb::Nop => &[0x4e, 0x4f, 0x50],
        Verb::End => &[0x45, 0x4e, 0x44],
        Verb::Cancel => &[0x43, 0x41, 0x4e],
        Verb::Help => &[0x48, 0x45, 0x4c, 0x50],
        Verb::Quit => &[0x51, 0x55, 0x49, 0x54],
        Verb::Auth => &[0x41, 0x55, 0x54, 0x48],
        Verb::SetOption => &[0x4f, 0x50, 0x54, 0x49, 0x4f, 0x4e],
        Verb::Data => &[0x44],
        Verb::Other => &[],
    };
    assert(w@ =~= verb_word(v));
    w
}

/// The bytes of `D <data>`.
pub(crate) fn placeholder() -> (w: &'static [u8])
    ensures
        w@ == data_placeholder(),
{
    let w: &'static [u8] = &[0x44, 0x20, 0x3c, 0x64, 0x61, 0x74, 0x61, 0x3e];
    assert(w@ =~= data_placeholder());
    w
}

/// The verb that `cmd` names.
fn classify(cmd: &[u8]) -> (v: Verb)
    ensures
        v == verb_of(cmd@),
{
    if bytes_eq(cmd, word(Verb::Comment)) {
        Verb::Comment
    } else if bytes_eq(cmd, word(Verb::Bye)) {
        Verb::Bye
    } else if bytes_eq(cmd, word(Verb::Reset)) {
        Verb::Reset
    } else if bytes_eq(cmd, word(Verb::Nop)) {
        Verb::Nop
    } else if bytes_eq(cmd, word(Verb::End)) {
        Verb::End
    } else if bytes_eq(cmd, word(Verb::Cancel)) {
        Verb::Cancel
    } else if bytes_eq(cmd, word(Verb::Help)) {
        Verb::Help
    } else if bytes_eq(cmd, word(Verb::Quit)) {
        Verb::Quit
    } else if bytes_eq(cmd, word(Verb::Auth)) {
        Verb::Auth
    } else if bytes_eq(cmd, word(Verb::SetOption)) {
        Verb::SetOption
    } else if bytes_eq(cmd, word(Verb::Data)) {
        Verb::Data
    } else {
        Verb::Other
    }
}

/// What `parsed_line` is, in the terms in which `Request::parse` computes it.
proof fn lemma_parsed_line(orig: Seq<u8>, end: int, p: int)
    requires
        0 < end <= orig.len(),
        strip_eol(orig) == orig.subrange(0, end),
        p == find_byte(orig.subrange(0, end), SPACE),
    ensures
        0 <= p <= end,
        ({
            let l = orig.subrange(0, end);
            let cmd = uppercase(orig.subrange(0, p));
            let upper = cmd + orig.subrange(p, orig.len() as int);
            let dec = percent_decode(upper.subrange(p + 1, end));
            &&& cmd == uppercase(l.subrange(0, p))
            &&& upper.len() == orig.len()
            &&& (p < end ==> upper.subrange(p + 1, end) == l.subrange(p + 1, end))
            &&& (!valid_utf8(cmd) || end - p <= 1) ==> parsed_line(orig) == upper
            &&& (valid_utf8(cmd) && end - p > 1) ==> parsed_line(orig) == upper.subrange(0, p + 1)
                + dec + upper.subrange(p + 1 + dec.len(), orig.len() as int)
        }),
{
    let l = orig.subrange(0, end);
    crate::wire::lemma_find_byte(l, SPACE);
    let cmd = uppercase(orig.subrange(0, p));
    let upper = cmd + orig.subrange(p, orig.len() as int);
    assert(orig.subrange(0, p) =~= l.subrange(0, p));
    if p < end {
        assert(upper.subrange(p + 1, end) =~= l.subrange(p + 1, end));
    }
    if valid_utf8(cmd) && end - p > 1 {
        let dec = percent_decode(upper.subrange(p + 1, end));
        lemma_decode_shrinks(upper.subrange(p + 1, end));
        assert(upper.subrange(p + 1 + dec.len(), orig.len() as int) =~= orig.subrange(
            p + 1 + dec.len(),
            orig.len() as int,
        ));
    }
}

/// Where the line's text ends once a trailing LF or CRLF is left out.
fn content_end(line: &[u8]) -> (end: usize)
    ensures
        end <= line@.len(),
        strip_eol(line@) == line@.subrange(0, end as int),
{
    let mut end = line.len();
    if end > 0 && line[end - 1] == LF {
        end = end - 1;
        if end > 0 && line[end - 1] == CR {
            end = end - 1;
        }
    }
    assert(strip_eol(line@) =~= line@.subrange(0, end as int));
    end
}

/// Upper-cases the ASCII letters of `line[..p]` in place.
fn uppercase_prefix(line: &mut [u8], p: usize)
    requires
        p <= old(line)@.len(),
    ensures
        final(line)@ == uppercase(old(line)@.subrange(0, p as int)) + old(line)@.subrange(
            p as int,
            old(line)@.len() as int,
        ),
{
    let ghost orig = old(line)@;
    let len = line.len();
    let mut i: usize = 0;
    while i < p
        invariant
            i <= p <= len,
            line@.len() == len,
            orig.len() == len,
            line@ == uppercase(orig.subrange(0, i as int)) + orig.subrange(i as int, len as int),
        decreases p - i,
    {
        let b = line[i];
        if 0x61 <= b && b <= 0x7a {
            line[i] = b - 32;
        }
        i = i + 1;
        assert(line@ =~= uppercase(orig.subrange(0, i as int)) + orig.subrange(i as int, len as int));
    }
}

/// Decodes the arguments `line[p + 1..end]` in place, when there is more
/// than the space at `p`.
fn decode_args(line: &mut [u8], p: usize, end: usize) -> (r: Result<Option<String>, Error>)
    requires
        p <= end <= old(line)@.len(),
    ensures
        ({
            let old_line = old(line)@;
            let dec = percent_decode(old_line.subrange(p + 1, end as int));
            if end - p > 1 {
                &&& final(line)@ == old_line.subrange(0, p + 1) + dec + old_line.subrange(
                    p + 1 + dec.len(),
                    old_line.len() as int,
                )
                &&& r is Ok <==> valid_utf8(dec)
                &&& r matches Ok(a) ==> opt_utf8(a) == Some(dec)
                &&& r matches Err(e) ==> is_malformed(e)
            } else {
                final(line)@ == old_line && r == Ok::<Option<String>, Error>(None)
            }
        }),
{
    if end - p > 1 {
        let stop = percent::decode_range(line, p + 1, end);
        let ghost dec = percent_decode(old(line)@.subrange(p + 1, end as int));
        assert(line@.subrange(p + 1, stop as int) =~= dec);
        match str_from_utf8(&line[p + 1..stop]) {
            Some(a) => Ok(Some(a.to_owned())),
            None => Err(Error::malformed()),
        }
    } else {
        Ok(None)
    }
}

/// The request that a verb makes of the command word `name` and the
/// decoded arguments.
fn build(verb: Verb, name: String, args: Option<String>) -> (r: Result<Request, Error>)
    ensures
        r is Ok <==> request_of(verb, utf8_of(name@), opt_utf8(args)) is Some,
        r matches Ok(req) ==> request_of(verb, utf8_of(name@), opt_utf8(args)) == Some(req@),
        r matches Err(e) ==> is_malformed(e),
{
    match verb {
        Verb::Comment => Ok(
            Request::Comment(
                match args {
                    Some(a) => a,
                    None => String::new(),
                },
            ),
        ),
        Verb::Bye => Ok(Request::Bye),
        Verb::Reset => Ok(Request::Reset),
        Verb::Nop => Ok(Request::Nop),
        Verb::End => Ok(Request::End),
        Verb::Cancel => Ok(Request::Cancel),
        Verb::Help => Ok(Request::Help),
        Verb::Quit => Ok(Request::Quit),
        Verb::Auth => Ok(Request::Auth),
        Verb::SetOption => {
            let (key, value) = match &args {
                Some(a) => parse_option_args(a.as_str()),
                None => (String::new(), String::new()),
            };
            Ok(Request::SetOption { key, value })
        },
        Verb::Data => Ok(
            Request::Data(
                match &args {
                    Some(a) => str_bytes(a.as_str()),
                    None => Vec::new(),
                },
            ),
        ),
        Verb::Other => Ok(Request::Command { name, args }),
    }
}

/// Parse OPTION arguments: `name [= value]`.
fn parse_option_args(args: &str) -> (r: (String, String))
    ensures
        (utf8_of(r.0@), utf8_of(r.1@)) == option_args(args.spec_bytes()),
{
    let bytes = args.as_bytes();
    let ghost a = args.spec_bytes();
    proof {
        lemma_str_chars(args);
    }
    if bytes.len() == 0 {
        return (String::new(), String::new());
    }
    let pos = position(bytes, 0, bytes.len(), EQUALS);
    assert(bytes@.subrange(0, bytes@.len() as int) =~= a);
    if pos < bytes.len() {
        proof {
            crate::wire::lemma_find_byte(a, EQUALS);
            lemma_split_at_ascii(a, pos as int);
        }
        let key = match str_from_utf8(&bytes[0..pos]) {
            Some(k) => k,
            None => {
                return (String::new(), String::new());
            },
        };
        let value = match str_from_utf8(&bytes[pos + 1..bytes.len()]) {
            Some(v) => v,
            None => {
                return (String::new(), String::new());
            },
        };
        proof {
            lemma_str_chars(key);
            lemma_str_chars(value);
        }
        (trim(key).to_owned(), trim(value).to_owned())
    } else {
        (trim(args).to_owned(), String::new())
    }
}

/// Write a line with its `\n` terminator to `w`.
pub(crate) fn write_line(w: &mut Vec<u8>, line: &[u8]) -> (r: Result<usize, Error>)
    ensures
        r is Ok <==> line@.len() + 1 <= MAX_LINE_SIZE,
        r matches Ok(n) ==> n == line@.len() + 1 && final(w)@ == old(w)@ + line@ + seq![LF],
        r matches Err(e) ==> is_line_too_long(e) && final(w)@ == old(w)@,
{
    if line.len() >= MAX_LINE_SIZE {
        return Err(Error::line_too_long());
    }
    let total = line.len() + 1;
    push_all(w, line);
    w.push(LF);
    Ok(total)
}

/// Write a data line (`D <percent-encoded-data>\n`) to `w`.
pub(crate) fn write_data(w: &mut Vec<u8>, data: &[u8]) -> (r: Result<usize, Error>)
    ensures
        r is Ok <==> 3 * data@.len() <= MAX_LINE_SIZE - 3,
        r matches Ok(n) ==> {
            let line = verb_word(Verb::Data) + seq![SPACE] + percent_encode(data@);
            n == line.len() + 1 && final(w)@ == old(w)@ + line + seq![LF]
        },
        r matches Err(e) ==> is_line_too_long(e) && final(w)@ == old(w)@,
{
    let max_encoded = MAX_LINE_SIZE - 3;
    if data.len() > max_encoded / 3 {
        return Err(Error::line_too_long());
    }
    let encoded_len = percent::encoded_len(data.len());
    proof {
        percent::lemma_encode_len(data@);
    }
    let mut buf = vec![0u8; encoded_len];
    let n = percent::encode(data, &mut buf);
    push_all(w, word(Verb::Data));
    w.push(SPACE);
    push_all(w, &buf[0..n]);
    w.push(LF);
    Ok(n + 3)
}

impl Request {
    /// Parse a raw line into a request.
    ///
    /// A trailing LF or CRLF is stripped. The command name is upper-cased in
    /// place; the arguments are percent-decoded in place. Returns an error if
    /// the line is empty or not valid UTF-8.
    pub fn parse(line: &mut [u8]) -> (r: Result<Self, Error>)
        ensures
            final(line)@ == parsed_line(old(line)@),
            r is Ok <==> parse_request(old(line)@) is Some,
            r matches Ok(req) ==> parse_request(old(line)@) == Some(req@),
            r matches Err(e) ==> is_malformed(e),
    {
        let ghost orig = old(line)@;
        let end = content_end(line);
        let ghost l = strip_eol(orig);
        if end == 0 {
            return Err(Error::malformed());
        }
        let p = position(line, 0, end, SPACE);
        assert(line@.subrange(0, end as int) == l);
        let ghost cmd = uppercase(l.subrange(0, p as int));
        uppercase_prefix(line, p);
        assert(orig.subrange(0, p as int) =~= l.subrange(0, p as int));
        assert(line@.subrange(0, p as int) =~= cmd);
        let verb = classify(&line[0..p]);
        let name = match str_from_utf8(&line[0..p]) {
            Some(c) => c.to_owned(),
            None => {
                assert(line@ =~= parsed_line(orig));
                return Err(Error::malformed());
            },
        };
        let ghost upper = line@;
        proof {
            lemma_parsed_line(orig, end as int, p as int);
        }
        let args = match decode_args(line, p, end) {
            Ok(a) => a,
            Err(e) => {
                assert(line@ =~= parsed_line(orig));
                return Err(e);
            },
        };
        assert(line@ =~= parsed_line(orig));
        build(verb, name, args)
    }

    /// Write this request, with its newline, to the end of `w`.
    ///
    /// Returns the number of bytes written. Enforces [`MAX_LINE_SIZE`]: a
    /// request that does not fit leaves `w` as it was.
    pub fn write_to(&self, w: &mut Vec<u8>) -> (r: Result<usize, Error>)
        ensures
            r is Ok <==> request_fits(self@),
            r matches Ok(n) ==> n == request_line(self@).len() + 1 && final(w)@ == old(w)@
                + request_line(self@) + seq![LF],
            r matches Err(e) ==> is_line_too_long(e) && final(w)@ == old(w)@,
    {
        match self {
            Request::Bye => write_line(w, word(Verb::Bye)),
            Request::Reset => write_line(w, word(Verb::Reset)),
            Request::Nop => write_line(w, word(Verb::Nop)),
            Request::End => write_line(w, word(Verb::End)),
            Request::Cancel => write_line(w, word(Verb::Cancel)),
            Request::Help => write_line(w, word(Verb::Help)),
            Request::Quit => write_line(w, word(Verb::Quit)),
            Request::Auth => write_line(w, word(Verb::Auth)),
            Request::SetOption { key, value } => {
                let mut line: Vec<u8> = Vec::new();
                push_all(&mut line, word(Verb::SetOption));
                line.push(SPACE);
                push_all(&mut line, key.as_str().as_bytes());
                proof {
                    lemma_utf8_empty(value@);
                }
                if !value.as_str().is_empty() {
                    line.push(EQUALS);
                    push_all(&mut line, value.as_str().as_bytes());
                }
                write_line(w, line.as_slice())
            },
            Request::Data(data) => write_data(w, data.as_slice()),
            Request::Comment(s) => {
                let mut line: Vec<u8> = Vec::new();
                push_all(&mut line, word(Verb::Comment));
                line.push(SPACE);
                push_all(&mut line, s.as_str().as_bytes());
                write_line(w, line.as_slice())
            },
            Request::Command { name, args } => match args {
                None => write_line(w, name.as_str().as_bytes()),
                Some(args) => {
                    let arg_bytes = args.as_str().as_bytes();
                    proof {
                        percent::lemma_encode_len(arg_bytes@);
                    }
                    if arg_bytes.len() >= MAX_LINE_SIZE {
                        return Err(Error::line_too_long());
                    }
                    let encoded_len = percent::encoded_len(arg_bytes.len());
                    let mut buf: Vec<u8> = Vec::new();
                    push_all(&mut buf, name.as_str().as_bytes());
                    buf.push(SPACE);
                    let mut enc_buf = vec![0u8; encoded_len];
                    let n = percent::encode(arg_bytes, &mut enc_buf);
                    push_all(&mut buf, &enc_buf[0..n]);
                    write_line(w, buf.as_slice())
                },
            },
        }
    }

    /// The text this request is shown as: its line, with data shown as
    /// `D <data>` and command arguments as they are.
    pub fn to_string(&self) -> (s: String)
        ensures
            utf8_of(s@) == request_text(self@),
    {
        let mut out: Vec<u8> = Vec::new();
        match self {
            Request::Data(_) => push_all(&mut out, placeholder()),
            Request::Command { name, args } => {
                push_all(&mut out, name.as_str().as_bytes());
                match args {
                    Some(a) => {
                        out.push(SPACE);
                        push_all(&mut out, a.as_str().as_bytes());
                    },
                    None => {},
                }
            },
            Request::SetOption { key, value } => {
                push_all(&mut out, word(Verb::SetOption));
                out.push(SPACE);
                push_all(&mut out, key.as_str().as_bytes());
                proof {
                    lemma_utf8_empty(value@);
                }
                if !value.as_str().is_empty() {
                    out.push(EQUALS);
                    push_all(&mut out, value.as_str().as_bytes());
                }
            },
            Request::Comment(c) => {
                push_all(&mut out, word(Verb::Comment));
                out.push(SPACE);
                push_all(&mut out, c.as_str().as_bytes());
            },
            Request::Bye => push_all(&mut out, word(Verb::Bye)),
            Request::Reset => push_all(&mut out, word(Verb::Reset)),
            Request::Nop => push_all(&mut out, word(Verb::Nop)),
            Request::End => push_all(&mut out, word(Verb::End)),
            Request::Cancel => push_all(&mut out, word(Verb::Cancel)),
            Request::Help => push_all(&mut out, word(Verb::Help)),
            Request::Quit => push_all(&mut out, word(Verb::Quit)),
            Request::Auth => push_all(&mut out, word(Verb::Auth)),
        }
        assert(out@ == request_text(self@));
        proof {
            lemma_request_text_valid(self@);
        }
        bytes_to_string(out.as_slice())
    }
}

/// Whether the text fields of a request model are well-formed UTF-8.
pub open spec fn request_model_wf(r: RequestModel) -> bool {
    match r {
        RequestModel::SetOption { key, value } => valid_utf8(key) && valid_utf8(value),
        RequestModel::Comment(s) => valid_utf8(s),
        RequestModel::Command { name, args } => valid_utf8(name) && (args matches Some(a)
            ==> valid_utf8(a)),
        _ => true,
    }
}

/// The model of a request is well-formed.
pub proof fn lemma_request_view_wf(r: &Request)
    ensures
        request_model_wf(r@),
{
}

/// The protocol's words are ASCII, hence well-formed UTF-8.
proof fn lemma_verb_word_valid(v: Verb)
    ensures
        valid_utf8(verb_word(v)),
        valid_utf8(verb_word(v) + seq![SPACE]),
{
    lemma_ascii_valid_utf8(verb_word(v));
    lemma_ascii_valid_utf8(verb_word(v) + seq![SPACE]);
}

/// The text of a request with well-formed strings is well-formed UTF-8.
proof fn lemma_request_text_valid(r: RequestModel)
    requires
        request_model_wf(r),
    ensures
        valid_utf8(request_text(r)),
{
    lemma_ascii_valid_utf8(seq![SPACE]);
    lemma_ascii_valid_utf8(seq![EQUALS]);
    match r {
        RequestModel::Data(_) => {
            lemma_ascii_valid_utf8(data_placeholder());
            assert(valid_utf8(data_placeholder()));
            assert(request_text(r) == data_placeholder());
        },
        RequestModel::SetOption { key, value } => {
            let head = verb_word(Verb::SetOption) + seq![SPACE];
            lemma_verb_word_valid(Verb::SetOption);
            valid_utf8_concat(head, key);
            valid_utf8_concat(head + key, seq![EQUALS]);
            valid_utf8_concat(head + key + seq![EQUALS], value);
        },
        RequestModel::Comment(c) => {
            lemma_verb_word_valid(Verb::Comment);
            valid_utf8_concat(verb_word(Verb::Comment) + seq![SPACE], c);
        },
        RequestModel::Command { name, args } => {
            if let Some(a) = args {
                valid_utf8_concat(name, seq![SPACE]);
                valid_utf8_concat(name + seq![SPACE], a);
            }
        },
        RequestModel::Bye => lemma_verb_word_valid(Verb::Bye),
        RequestModel::Reset => lemma_verb_word_valid(Verb::Reset),
        RequestModel::Nop => lemma_verb_word_valid(Verb::Nop),
        RequestModel::End => lemma_verb_word_valid(Verb::End),
        RequestModel::Cancel => lemma_verb_word_valid(Verb::Cancel),
        RequestModel::Help => lemma_verb_word_valid(Verb::Help),
        RequestModel::Quit => lemma_verb_word_valid(Verb::Quit),
        RequestModel::Auth => lemma_verb_word_valid(Verb::Auth),
    }
}


/// Whether a request is written as a line that reads back as the same request.
///
/// The writer percent-encodes data and command arguments but writes option
/// keys, option values and comments as they are; those must then read back
/// unchanged; data must be UTF-8. A command name must be one upper-case word that is not a
/// protocol verb, and a command written without arguments must not end in a
/// line feed; arguments that are there must not be empty.
pub open spec fn request_reparses(r: RequestModel) -> bool {
    match r {
        RequestModel::SetOption { key, value } => {
            let a = option_text(key, value);
            &&& find_byte(key, EQUALS) == key.len()
            &&& percent_decode(a) == a
            &&& trim_utf8(key) == key
            &&& trim_utf8(value) == value
            &&& (a.len() > 0 ==> a.last() != LF)
        },
        RequestModel::Data(d) => valid_utf8(d),
        RequestModel::Comment(s) => percent_decode(s) == s && (s.len() > 0 ==> s.last() != LF),
        RequestModel::Command { name, args } => {
            &&& find_byte(name, SPACE) == name.len()
            &&& uppercase(name) == name
            &&& verb_of(name) is Other
            &&& match args {
                None => name.len() > 0 && name.last() != LF,
                Some(a) => a.len() > 0,
            }
        },
        _ => true,
    }
}

/// The text after `OPTION `: the key, then `=` and the value when there is one.
pub open spec fn option_text(key: Seq<u8>, value: Seq<u8>) -> Seq<u8> {
    if value.len() == 0 {
        key
    } else {
        key + seq![EQUALS] + value
    }
}

/// A protocol verb is one upper-case word.
proof fn lemma_verb_word(v: Verb)
    ensures
        find_byte(verb_word(v), SPACE) == verb_word(v).len(),
        uppercase(verb_word(v)) == verb_word(v),
        v !is Other ==> verb_of(verb_word(v)) == v,
{
    let w = verb_word(v);
    assert forall|i: int| 0 <= i < w.len() implies w[i] != SPACE by {}
    crate::wire::lemma_find_byte_at(w, SPACE, w.len() as int);
    assert(uppercase(w) =~= w);
}

/// What a line made of a word, a space and some text parses as.
proof fn lemma_parse_word_line(word: Seq<u8>, rest: Seq<u8>)
    requires
        find_byte(word, SPACE) == word.len(),
        uppercase(word) == word,
        valid_utf8(word),
        rest.len() > 0 ==> rest.last() != LF,
    ensures
        parse_request(word + seq![SPACE] + rest) == if rest.len() > 0 && !valid_utf8(
            percent_decode(rest),
        ) {
            None
        } else {
            request_of(
                verb_of(word),
                word,
                if rest.len() > 0 {
                    Some(percent_decode(rest))
                } else {
                    None
                },
            )
        },
{
    let line = word + seq![SPACE] + rest;
    assert(strip_eol(line) == line);
    crate::wire::lemma_find_byte_after(word, SPACE, rest);
    assert(line.subrange(0, word.len() as int) =~= word);
    assert(line.subrange(word.len() as int + 1, line.len() as int) =~= rest);
}

/// What a line of one word parses as.
proof fn lemma_parse_word(word: Seq<u8>)
    requires
        find_byte(word, SPACE) == word.len(),
        uppercase(word) == word,
        valid_utf8(word),
        word.len() > 0,
        word.last() != LF,
    ensures
        parse_request(word) == request_of(verb_of(word), word, None),
{
    assert(strip_eol(word) == word);
    assert(word.subrange(0, word.len() as int) =~= word);
}

/// An option whose text reads back unchanged round-trips.
proof fn lemma_option_round_trip(key: Seq<u8>, value: Seq<u8>)
    requires
        request_model_wf(RequestModel::SetOption { key, value }),
        request_reparses(RequestModel::SetOption { key, value }),
    ensures
        parse_request(request_line(RequestModel::SetOption { key, value })) == Some(
            RequestModel::SetOption { key, value },
        ),
{
    let r = RequestModel::SetOption { key, value };
    let w = verb_word(Verb::SetOption);
    let a = option_text(key, value);
    lemma_verb_word(Verb::SetOption);
    lemma_ascii_valid_utf8(w);
    lemma_ascii_valid_utf8(seq![EQUALS]);
    if value.len() > 0 {
        valid_utf8_concat(key, seq![EQUALS]);
        valid_utf8_concat(key + seq![EQUALS], value);
        crate::wire::lemma_find_byte_after(key, EQUALS, value);
    }
    assert(request_line(r) =~= w + seq![SPACE] + a);
    lemma_parse_word_line(w, a);
    if a.len() > 0 {
        assert(a.subrange(0, a.len() as int) =~= a);
        if value.len() > 0 {
            assert(a.subrange(0, key.len() as int) =~= key);
            assert(a.subrange(key.len() as int + 1, a.len() as int) =~= value);
        }
    } else {
        assert(key.len() == 0);
    }
}

/// A data line with UTF-8 data round-trips.
proof fn lemma_data_round_trip(d: Seq<u8>)
    requires
        valid_utf8(d),
    ensures
        parse_request(request_line(RequestModel::Data(d))) == Some(RequestModel::Data(d)),
{
    let w = verb_word(Verb::Data);
    lemma_verb_word(Verb::Data);
    lemma_ascii_valid_utf8(w);
    crate::percent::lemma_decode_encode(d);
    if d.len() > 0 {
        crate::percent::lemma_encode_last(d);
    } else {
        assert(percent_encode(d) =~= Seq::<u8>::empty());
    }
    lemma_parse_word_line(w, percent_encode(d));
}

/// A comment that reads back unchanged round-trips.
proof fn lemma_comment_round_trip(s: Seq<u8>)
    requires
        valid_utf8(s),
        request_reparses(RequestModel::Comment(s)),
    ensures
        parse_request(request_line(RequestModel::Comment(s))) == Some(RequestModel::Comment(s)),
{
    let w = verb_word(Verb::Comment);
    lemma_verb_word(Verb::Comment);
    lemma_ascii_valid_utf8(w);
    lemma_parse_word_line(w, s);
}

/// An application command round-trips.
proof fn lemma_command_round_trip(name: Seq<u8>, args: Option<Seq<u8>>)
    requires
        request_model_wf(RequestModel::Command { name, args }),
        request_reparses(RequestModel::Command { name, args }),
    ensures
        parse_request(request_line(RequestModel::Command { name, args })) == Some(
            RequestModel::Command { name, args },
        ),
{
    match args {
        None => {
            lemma_parse_word(name);
        },
        Some(a) => {
            crate::percent::lemma_decode_encode(a);
            crate::percent::lemma_encode_last(a);
            lemma_parse_word_line(name, percent_encode(a));
        },
    }
}

/// A request whose line reads back as itself does so: parsing the line that
/// `write_to` writes, without its newline, gives the request back.
pub proof fn lemma_request_round_trip(r: RequestModel)
    requires
        request_model_wf(r),
        request_reparses(r),
    ensures
        parse_request(request_line(r)) == Some(r),
{
    lemma_ascii_valid_utf8(seq![SPACE]);
    match r {
        RequestModel::SetOption { key, value } => lemma_option_round_trip(key, value),
        RequestModel::Data(d) => lemma_data_round_trip(d),
        RequestModel::Comment(s) => lemma_comment_round_trip(s),
        RequestModel::Command { name, args } => lemma_command_round_trip(name, args),
        _ => {
            let v = match r {
                RequestModel::Bye => Verb::Bye,
                RequestModel::Reset => Verb::Reset,
                RequestModel::Nop => Verb::Nop,
                RequestModel::End => Verb::End,
                RequestModel::Cancel => Verb::Cancel,
                RequestModel::Help => Verb::Help,
                RequestModel::Quit => Verb::Quit,
                _ => Verb::Auth,
            };
            lemma_verb_word(v);
            lemma_ascii_valid_utf8(verb_word(v));
            assert(request_line(r) == verb_word(v));
            lemma_parse_word(verb_word(v));
        },
    }
}

/// What `write_to` writes is one line of at most `MAX_LINE_SIZE` bytes,
/// its newline included.
pub proof fn lemma_written_request_fits(r: RequestModel)
    requires
        request_fits(r),
    ensures
        request_line(r).len() + 1 <= MAX_LINE_SIZE,
{
    if let RequestModel::Data(d) = r {
        crate::percent::lemma_encode_len(d);
    }
}

/// Whether `line` is `word` with each of its upper-case ASCII letters in
/// either case.
pub open spec fn same_letters(line: Seq<u8>, word: Seq<u8>) -> bool {
    &&& line.len() == word.len()
    &&& forall|i: int|
        0 <= i < word.len() ==> (line[i] == word[i] || (0x41 <= word[i] <= 0x5a && line[i] == word[i]
            + 32))
}

/// A protocol verb typed in any case parses as that verb.
proof fn lemma_verb_in_any_case(line: Seq<u8>, v: Verb)
    requires
        v !is Other,
        same_letters(line, verb_word(v)),
    ensures
        parse_request(line) == request_of(v, verb_word(v), None),
{
    let w = verb_word(v);
    lemma_verb_word(v);
    lemma_ascii_valid_utf8(w);
    assert forall|i: int| 0 <= i < line.len() implies line[i] != SPACE && line[i] != LF by {
        assert(w[i] != SPACE && w[i] != LF);
    }
    crate::wire::lemma_find_byte_at(line, SPACE, line.len() as int);
    assert(line[line.len() - 1] != LF);
    assert(strip_eol(line) == line);
    assert(line.subrange(0, line.len() as int) =~= line);
    assert(uppercase(line) =~= w) by {
        assert forall|i: int| 0 <= i < line.len() implies upper_ascii(line[i]) == w[i] by {
            assert(!(0x61 <= w[i] <= 0x7a));
        }
    }
}

/// Each protocol verb is written as its own fixed word (`BYE`, `RESET`,
/// `NOP`, `END`, `CAN`, `HELP`, `QUIT`, `AUTH`), and a line holding one of
/// the protocol's words, in any mix of upper and lower case, parses as that
/// verb (`OPTION`, `D` and `#` with no arguments).
pub proof fn lemma_protocol_words(line: Seq<u8>)
    ensures
        request_line(RequestModel::Bye) == seq![0x42u8, 0x59, 0x45],
        request_line(RequestModel::Reset) == seq![0x52u8, 0x45, 0x53, 0x45, 0x54],
        request_line(RequestModel::Nop) == seq![0x4eu8, 0x4f, 0x50],
        request_line(RequestModel::End) == seq![0x45u8, 0x4e, 0x44],
        request_line(RequestModel::Cancel) == seq![0x43u8, 0x41, 0x4e],
        request_line(RequestModel::Help) == seq![0x48u8, 0x45, 0x4c, 0x50],
        request_line(RequestModel::Quit) == seq![0x51u8, 0x55, 0x49, 0x54],
        request_line(RequestModel::Auth) == seq![0x41u8, 0x55, 0x54, 0x48],
        same_letters(line, seq![0x42u8, 0x59, 0x45]) ==> parse_request(line) == Some(RequestModel::Bye),
        same_letters(line, seq![0x52u8, 0x45, 0x53, 0x45, 0x54]) ==> parse_request(line) == Some(RequestModel::Reset),
        same_letters(line, seq![0x4eu8, 0x4f, 0x50]) ==> parse_request(line) == Some(RequestModel::Nop),
        same_letters(line, seq![0x45u8, 0x4e, 0x44]) ==> parse_request(line) == Some(RequestModel::End),
        same_letters(line, seq![0x43u8, 0x41, 0x4e]) ==> parse_request(line) == Some(RequestModel::Cancel),
        same_letters(line, seq![0x48u8, 0x45, 0x4c, 0x50]) ==> parse_request(line) == Some(RequestModel::Help),
        same_letters(line, seq![0x51u8, 0x55, 0x49, 0x54]) ==> parse_request(line) == Some(RequestModel::Quit),
        same_letters(line, seq![0x41u8, 0x55, 0x54, 0x48]) ==> parse_request(line) == Some(RequestModel::Auth),
        same_letters(line, seq![0x4fu8, 0x50, 0x54, 0x49, 0x4f, 0x4e]) ==> parse_request(line) == Some(
            RequestModel::SetOption { key: Seq::empty(), value: Seq::empty() },
        ),
        same_letters(line, seq![0x44u8]) ==> parse_request(line) == Some(RequestModel::Data(Seq::empty())),
        same_letters(line, seq![0x23u8]) ==> parse_request(line) == Some(RequestModel::Comment(Seq::empty())),
{
    if same_letters(line, verb_word(Verb::Bye)) {
        lemma_verb_in_any_case(line, Verb::Bye);
    }
    if same_letters(line, verb_word(Verb::Reset)) {
        lemma_verb_in_any_case(line, Verb::Reset);
    }
    if same_letters(line, verb_word(Verb::Nop)) {
        lemma_verb_in_any_case(line, Verb::Nop);
    }
    if same_letters(line, verb_word(Verb::End)) {
        lemma_verb_in_any_case(line, Verb::End);
    }
    if same_letters(line, verb_word(Verb::Cancel)) {
        lemma_verb_in_any_case(line, Verb::Cancel);
    }
    if same_letters(line, verb_word(Verb::Help)) {
        lemma_verb_in_any_case(line, Verb::Help);
    }
    if same_letters(line, verb_word(Verb::Quit)) {
        lemma_verb_in_any_case(line, Verb::Quit);
    }
    if same_letters(line, verb_word(Verb::Auth)) {
        lemma_verb_in_any_case(line, Verb::Auth);
    }
    if same_letters(line, verb_word(Verb::SetOption)) {
        lemma_verb_in_any_case(line, Verb::SetOption);
    }
    if same_letters(line, verb_word(Verb::Data)) {
        lemma_verb_in_any_case(line, Verb::Data);
    }
    if same_letters(line, verb_word(Verb::Comment)) {
        lemma_verb_in_any_case(line, Verb::Comment);
    }
}

/// Options, data and comments are written after their own fixed words:
/// `OPTION key[=value]`, `D <encoded data>` and `# comment`.
pub proof fn lemma_argument_words(key: Seq<u8>, value: Seq<u8>, d: Seq<u8>, c: Seq<u8>)
    ensures
        request_line(RequestModel::SetOption { key, value: Seq::empty() }) == seq![0x4fu8, 0x50, 0x54, 0x49, 0x4f, 0x4e, 0x20] + key,
        value.len() > 0 ==> request_line(RequestModel::SetOption { key, value }) == seq![0x4fu8, 0x50, 0x54, 0x49, 0x4f, 0x4e, 0x20]
            + key + seq![0x3du8] + value,
        request_line(RequestModel::Data(d)) == seq![0x44u8, 0x20] + percent_encode(d),
        request_line(RequestModel::Comment(c)) == seq![0x23u8, 0x20] + c,
{
    assert(verb_word(Verb::SetOption) + seq![SPACE] =~= seq![0x4fu8, 0x50, 0x54, 0x49, 0x4f, 0x4e, 0x20]);
    assert(verb_word(Verb::Data) + seq![SPACE] =~= seq![0x44u8, 0x20]);
    assert(verb_word(Verb::Comment) + seq![SPACE] =~= seq![0x23u8, 0x20]);
}

/// A parsed command's name holds no lower-case ASCII letter: the command
/// word is upper-cased.
pub proof fn lemma_command_names_upper(line: Seq<u8>)
    ensures
        parse_request(line) matches Some(RequestModel::Command { name, .. }) ==> forall|i: int|
            0 <= i < name.len() ==> !(0x61 <= #[trigger] name[i] <= 0x7a),
{
}

} // verus!
