//! Line writer for the Assuan protocol.
//!
//! Appends complete lines to a byte buffer, enforcing the [`MAX_LINE_SIZE`]
//! limit and appending a trailing `\n`. Whoever owns the transport sends the
//! buffer's bytes.
use vstd::prelude::*;

use crate::error::{is_line_too_long, Error, ErrorCode};
use crate::request::{write_data, write_line};
use crate::response::{
    response_line, write_comment, write_err, write_inquire, write_ok, write_status, ResponseModel,
};
use crate::text::utf8_of;
use crate::wire::LF;
use crate::MAX_LINE_SIZE;

verus! {

/// The UTF-8 bytes of an optional string slice.
pub open spec fn opt_str_utf8(o: Option<&str>) -> Option<Seq<u8>> {
    match o {
        Some(s) => Some(utf8_of(s@)),
        None => None,
    }
}

/// What writing `line` did: on success (exactly when `fits`) the line and a
/// newline were appended and their length returned; otherwise the buffer is
/// unchanged and the error is "line too long".
pub open spec fn wrote_line(
    r: Result<usize, Error>,
    before: Seq<u8>,
    after: Seq<u8>,
    line: Seq<u8>,
    fits: bool,
) -> bool {
    &&& r is Ok <==> fits
    &&& r matches Ok(n) ==> n == line.len() + 1 && after =~= before + line + seq![LF]
    &&& r matches Err(e) ==> is_line_too_long(e) && after =~= before
}

/// Writes complete Assuan protocol lines to a byte buffer.
///
/// Enforces the 1000-byte line length limit.
pub struct LineWriter {
    /// The bytes written so far.
    pub writer: Vec<u8>,
}

impl LineWriter {
    /// Create a new line writer that appends to `writer`.
    pub fn new(writer: Vec<u8>) -> (lw: Self)
        ensures
            lw.writer@ == writer@,
    {
        LineWriter { writer }
    }

    /// Write a raw line, appending `\n`.
    ///
    /// The line must not exceed [`MAX_LINE_SIZE`] bytes (including the `\n`).
    /// Returns the number of bytes written.
    pub fn write_line(&mut self, line: &[u8]) -> (r: Result<usize, Error>)
        ensures
            wrote_line(
                r,
                old(self).writer@,
                final(self).writer@,
                line@,
                line@.len() + 1 <= MAX_LINE_SIZE,
            ),
    {
        write_line(&mut self.writer, line)
    }

    /// Write a data line (`D <percent-encoded-data>\n`).
    ///
    /// The raw `data` is percent-encoded before writing; it must be short
    /// enough for its worst-case encoding to fit. Returns the number of bytes
    /// written.
    pub fn write_data(&mut self, data: &[u8]) -> (r: Result<usize, Error>)
        ensures
            wrote_line(
                r,
                old(self).writer@,
                final(self).writer@,
                response_line(ResponseModel::Data(data@)),
                3 * data@.len() <= MAX_LINE_SIZE - 3,
            ),
    {
        write_data(&mut self.writer, data)
    }

    /// Write an OK line (`OK [message]\n`).
    pub fn write_ok(&mut self, msg: Option<&str>) -> (r: Result<usize, Error>)
        ensures
            ({
                let line = response_line(ResponseModel::Okay(opt_str_utf8(msg)));
                wrote_line(r, old(self).writer@, final(self).writer@, line, line.len() + 1 <= MAX_LINE_SIZE)
            }),
    {
        write_ok(&mut self.writer, msg)
    }

    /// Write an ERR line (`ERR code [message]\n`).
    pub fn write_err(&mut self, code: ErrorCode, msg: Option<&str>) -> (r: Result<usize, Error>)
        ensures
            ({
                let line = response_line(ResponseModel::Error(code.number(), opt_str_utf8(msg)));
                wrote_line(r, old(self).writer@, final(self).writer@, line, line.len() + 1 <= MAX_LINE_SIZE)
            }),
    {
        write_err(&mut self.writer, code, msg)
    }

    /// Write a status line (`S keyword [value]\n`).
    pub fn write_status(&mut self, keyword: &str, value: &str) -> (r: Result<usize, Error>)
        ensures
            ({
                let line = response_line(ResponseModel::Status(utf8_of(keyword@), utf8_of(value@)));
                wrote_line(r, old(self).writer@, final(self).writer@, line, line.len() + 1 <= MAX_LINE_SIZE)
            }),
    {
        write_status(&mut self.writer, keyword, value)
    }

    /// Write a comment line (`# comment\n`).
    pub fn write_comment(&mut self, comment: &str) -> (r: Result<usize, Error>)
        ensures
            ({
                let line = response_line(ResponseModel::Comment(utf8_of(comment@)));
                wrote_line(r, old(self).writer@, final(self).writer@, line, line.len() + 1 <= MAX_LINE_SIZE)
            }),
    {
        write_comment(&mut self.writer, comment)
    }

    /// Write an INQUIRE line (`INQUIRE keyword [params]\n`).
    pub fn write_inquire(&mut self, keyword: &str, params: &str) -> (r: Result<usize, Error>)
        ensures
            ({
                let line = response_line(ResponseModel::Inquire(utf8_of(keyword@), utf8_of(params@)));
                wrote_line(r, old(self).writer@, final(self).writer@, line, line.len() + 1 <= MAX_LINE_SIZE)
            }),
    {
        write_inquire(&mut self.writer, keyword, params)
    }
}

} // verus!
