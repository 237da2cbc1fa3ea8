//! Buffered line reader for the Assuan protocol.
//!
//! Splits the bytes that arrive from a transport into lines, enforcing the
//! 1000-byte line length limit of the Assuan specification. The reader does
//! no I/O itself: each call of [`LineReader::read`] takes one event (a new
//! read was asked for, bytes arrived, or the transport reached its end) and
//! answers with a line, a request for more bytes, or the end of the stream.
use vstd::prelude::*;

use crate::error::{is_line_too_long, Error};
use crate::text::push_all;
use crate::wire::{find_byte, position, CR, LF};
use crate::MAX_LINE_SIZE;

verus! {

/// What happened since the reader last answered.
#[derive(Debug)]
pub enum ReadEvent {
    /// A new line is asked for.
    Start,
    /// These bytes arrived from the transport.
    Input(Vec<u8>),
    /// The transport has no more bytes.
    Eof,
}

/// The reader's answer to an event.
#[derive(Debug)]
pub enum ReadStep {
    /// A complete line, without its `\n` or `\r\n`.
    Line(Vec<u8>),
    /// No complete line is buffered yet: read at most this many bytes from
    /// the transport and hand them over as [`ReadEvent::Input`].
    Fill(usize),
    /// The transport ended with nothing left over.
    Closed,
}

/// The reader's answer, as a model.
pub enum ReadOutcome {
    Line(Seq<u8>),
    Fill(nat),
    Closed,
    TooLong,
}

/// The bytes of a line without one trailing `\r`.
pub open spec fn strip_cr_spec(l: Seq<u8>) -> Seq<u8> {
    if l.len() > 0 && l.last() == CR {
        l.drop_last()
    } else {
        l
    }
}

/// The bytes held once the event's bytes, if any, are added to `pending`.
pub open spec fn gathered(pending: Seq<u8>, event: ReadEvent) -> Seq<u8> {
    match event {
        ReadEvent::Input(chunk) => pending + chunk@,
        _ => pending,
    }
}

/// What the reader answers to `event` while holding `pending`, and the bytes
/// it holds afterwards.
///
/// At the end of the transport, the bytes held, if any, are the last line,
/// as they are. Otherwise the first `\n` ends a line, which loses the `\n`
/// and one `\r` before it; with no `\n`, a full buffer is a line too long,
/// and a buffer with room asks for more bytes.
pub open spec fn read_outcome(pending: Seq<u8>, event: ReadEvent) -> (ReadOutcome, Seq<u8>) {
    match event {
        ReadEvent::Eof => if pending.len() == 0 {
            (ReadOutcome::Closed, pending)
        } else {
            (ReadOutcome::Line(pending), Seq::empty())
        },
        _ => {
            let s = gathered(pending, event);
            let p = find_byte(s, LF);
            if p < s.len() {
                (ReadOutcome::Line(strip_cr_spec(s.subrange(0, p))), s.subrange(p + 1, s.len() as int))
            } else if s.len() >= MAX_LINE_SIZE {
                (ReadOutcome::TooLong, s)
            } else {
                (ReadOutcome::Fill((MAX_LINE_SIZE - s.len()) as nat), s)
            }
        },
    }
}

/// Whether `r` is the answer that `outcome` describes.
pub open spec fn answers(r: Result<ReadStep, Error>, outcome: ReadOutcome) -> bool {
    match outcome {
        ReadOutcome::Line(l) => r matches Ok(ReadStep::Line(v)) && v@ == l,
        ReadOutcome::Fill(n) => r matches Ok(ReadStep::Fill(k)) && k == n,
        ReadOutcome::Closed => r matches Ok(ReadStep::Closed),
        ReadOutcome::TooLong => r matches Err(e) && is_line_too_long(e),
    }
}

/// Splits the bytes of a transport into lines.
///
/// Lines are delimited by `\n`; the `\n`, and a `\r` before it, are not part
/// of the line. Lines longer than [`MAX_LINE_SIZE`] (1000 bytes) are
/// refused.
pub struct LineReader {
    /// The bytes that arrived and are not yet part of a returned line.
    buffer: Vec<u8>,
}

impl View for LineReader {
    type V = Seq<u8>;

    /// The bytes that arrived and are not yet part of a returned line.
    closed spec fn view(&self) -> Seq<u8> {
        self.buffer@
    }
}

/// The length of a line once one trailing `\r` is left out.
fn strip_cr(s: &[u8]) -> (n: usize)
    ensures
        n <= s@.len(),
        s@.subrange(0, n as int) == strip_cr_spec(s@),
{
    if s.len() > 0 && s[s.len() - 1] == CR {
        assert(s@.subrange(0, s.len() - 1) =~= s@.drop_last());
        s.len() - 1
    } else {
        assert(s@.subrange(0, s.len() as int) =~= s@);
        s.len()
    }
}

/// The bytes of `s[from..to]`, copied into a vector.
fn copy_range(s: &[u8], from: usize, to: usize) -> (v: Vec<u8>)
    requires
        from <= to <= s@.len(),
    ensures
        v@ == s@.subrange(from as int, to as int),
{
    let mut v: Vec<u8> = Vec::new();
    push_all(&mut v, &s[from..to]);
    v
}

impl LineReader {
    /// Create a new line reader, holding no bytes.
    pub fn new() -> (r: Self)
        ensures
            r@ == Seq::<u8>::empty(),
    {
        LineReader { buffer: Vec::new() }
    }

    /// Take one event and answer it.
    ///
    /// After [`ReadEvent::Start`] or [`ReadEvent::Input`], a complete line is
    /// returned without its trailing `\n` or `\r\n` (CRLF and LF line endings
    /// give the same line, as libassuan does); with no complete line, the
    /// answer asks for more bytes, or is an error when the buffer already
    /// holds [`MAX_LINE_SIZE`] bytes. After [`ReadEvent::Eof`], the bytes
    /// held are returned as a last line, or the stream is closed when there
    /// are none.
    pub fn read(&mut self, event: ReadEvent) -> (r: Result<ReadStep, Error>)
        ensures
            answers(r, read_outcome(old(self)@, event).0),
            final(self)@ == read_outcome(old(self)@, event).1,
    {
        let ghost before = self@;
        match event {
            ReadEvent::Eof => {
                if self.buffer.len() == 0 {
                    return Ok(ReadStep::Closed);
                }
                let line = copy_range(self.buffer.as_slice(), 0, self.buffer.len());
                assert(line@ =~= before);
                self.buffer = Vec::new();
                return Ok(ReadStep::Line(line));
            },
            ReadEvent::Start => {},
            ReadEvent::Input(chunk) => {
                push_all(&mut self.buffer, chunk.as_slice());
            },
        }
        let len = self.buffer.len();
        let ghost s = self@;
        let p = position(self.buffer.as_slice(), 0, len, LF);
        assert(self.buffer@.subrange(0, len as int) =~= s);
        if p < len {
            let end = strip_cr(&self.buffer.as_slice()[0..p]);
            assert(self.buffer@.subrange(0, p as int).subrange(0, end as int) =~= self.buffer@.subrange(
                0,
                end as int,
            ));
            let line = copy_range(self.buffer.as_slice(), 0, end);
            let rest = copy_range(self.buffer.as_slice(), p + 1, len);
            self.buffer = rest;
            Ok(ReadStep::Line(line))
        } else if len >= MAX_LINE_SIZE {
            Err(Error::line_too_long())
        } else {
            Ok(ReadStep::Fill(MAX_LINE_SIZE - len))
        }
    }
}

impl Default for LineReader {
    fn default() -> (r: Self)
        ensures
            r@ == Seq::<u8>::empty(),
    {
        LineReader::new()
    }
}

/// A line, written with its newline, is read back as itself, and the bytes
/// after it are kept for the next read: so it is, whether the bytes were
/// held already or have just arrived, when the line holds no `\n` and does
/// not end in `\r`.
pub proof fn lemma_read_written_line(pending: Seq<u8>, event: ReadEvent, line: Seq<u8>, rest: Seq<u8>)
    requires
        !(event is Eof),
        gathered(pending, event) == line + seq![LF] + rest,
        find_byte(line, LF) == line.len(),
        line.len() > 0 ==> line.last() != CR,
    ensures
        read_outcome(pending, event) == (ReadOutcome::Line(line), rest),
{
    let s = gathered(pending, event);
    crate::wire::lemma_find_byte_after(line, LF, rest);
    assert(s.subrange(0, line.len() as int) =~= line);
    assert(s.subrange(line.len() as int + 1, s.len() as int) =~= rest);
}

/// The reader's answers depend on the bytes that arrived, not on how they
/// were cut into chunks: when the first chunk leaves it asking for more,
/// handing over a second chunk gives what both chunks at once would have
/// given.
pub proof fn lemma_chunks_join(pending: Seq<u8>, first: Vec<u8>, second: Vec<u8>, both: Vec<u8>)
    requires
        both@ == first@ + second@,
        read_outcome(pending, ReadEvent::Input(first)).0 is Fill,
    ensures
        read_outcome(read_outcome(pending, ReadEvent::Input(first)).1, ReadEvent::Input(second))
            == read_outcome(pending, ReadEvent::Input(both)),
{
    assert(pending + first@ + second@ =~= pending + both@);
}

/// CRLF and LF line endings give the same line.
pub proof fn lemma_crlf_like_lf(line: Seq<u8>, rest: Seq<u8>)
    requires
        find_byte(line, LF) == line.len(),
        line.len() > 0 ==> line.last() != CR,
    ensures
        read_outcome(line + seq![CR, LF] + rest, ReadEvent::Start).0 == read_outcome(
            line + seq![LF] + rest,
            ReadEvent::Start,
        ).0,
        read_outcome(line + seq![CR, LF] + rest, ReadEvent::Start).0 == ReadOutcome::Line(line),
{
    let a = line + seq![CR, LF] + rest;
    let b = line + seq![LF] + rest;
    let lc = line + seq![CR];
    crate::wire::lemma_find_byte(line, LF);
    assert forall|i: int| 0 <= i < lc.len() implies lc[i] != LF by {
        if i < line.len() {
            assert(lc[i] == line[i]);
        }
    }
    crate::wire::lemma_find_byte_at(lc, LF, lc.len() as int);
    assert(a =~= lc + seq![LF] + rest);
    crate::wire::lemma_find_byte_after(lc, LF, rest);
    crate::wire::lemma_find_byte_after(line, LF, rest);
    assert(a.subrange(0, lc.len() as int) =~= lc);
    assert(lc.drop_last() =~= line);
    assert(b.subrange(0, line.len() as int) =~= line);
}

/// A reader that is handed no more bytes than it asked for never returns a
/// line of `MAX_LINE_SIZE` bytes or more, and keeps at most `MAX_LINE_SIZE`
/// bytes.
pub proof fn lemma_lines_fit(pending: Seq<u8>, event: ReadEvent)
    requires
        gathered(pending, event).len() <= MAX_LINE_SIZE,
        event is Eof ==> pending.len() < MAX_LINE_SIZE,
    ensures
        read_outcome(pending, event).0 matches ReadOutcome::Line(l) ==> l.len() < MAX_LINE_SIZE,
        read_outcome(pending, event).1.len() <= MAX_LINE_SIZE,
{
    crate::wire::lemma_find_byte(gathered(pending, event), LF);
}

} // verus!
