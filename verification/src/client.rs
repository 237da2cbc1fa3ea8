//! Assuan client: the decisions of a client session.
//!
//! A [`Client`] writes requests as lines to an output buffer and reads
//! responses from the bytes that its transport delivers. It does no I/O:
//! the bytes to send collect in the output buffer, and [`Client::recv`]
//! asks for more bytes when it needs them.
use vstd::prelude::*;

use crate::error::{is_line_too_long, is_malformed, Error};
use crate::line_reader::{gathered, lemma_read_written_line, read_outcome, LineReader, ReadEvent, ReadOutcome, ReadStep};
use crate::line_writer::{wrote_line, LineWriter};
use crate::percent;
use crate::request::{request_fits, request_line, word, Request, Verb, EQUALS};
use crate::response::{
    lemma_response_round_trip, parse_response, response_line, response_model_wf, response_reparses, Response,
    ResponseModel,
};
use crate::server::{Incoming, SessionModel};
use crate::text::{lemma_utf8_empty, push_all};
use crate::wire::{find_byte, CR, LF, SPACE};
use crate::MAX_LINE_SIZE;

verus! {

/// What a call of `Client::recv` comes to.
pub enum ReceiveOutcome {
    Response(ResponseModel),
    Closed,
    Fill(nat),
    TooLong,
    Malformed,
}

/// What the client makes of the bytes it holds and one event: the next line
/// read as a response, the end of the session, or a need for more bytes.
pub open spec fn receive(pending: Seq<u8>, event: ReadEvent) -> ReceiveOutcome {
    match read_outcome(pending, event).0 {
        ReadOutcome::Line(l) => match parse_response(l) {
            Some(resp) => ReceiveOutcome::Response(resp),
            None => ReceiveOutcome::Malformed,
        },
        ReadOutcome::Closed => ReceiveOutcome::Closed,
        ReadOutcome::Fill(n) => ReceiveOutcome::Fill(n),
        ReadOutcome::TooLong => ReceiveOutcome::TooLong,
    }
}

/// Whether `r` is what `Client::recv` returns for `outcome`.
pub open spec fn receives(r: Result<Incoming<Response>, Error>, outcome: ReceiveOutcome) -> bool {
    match outcome {
        ReceiveOutcome::Response(m) => r matches Ok(Incoming::Message(q)) && q@ == m,
        ReceiveOutcome::Closed => r matches Ok(Incoming::Closed),
        ReceiveOutcome::Fill(n) => r matches Ok(Incoming::Fill(k)) && k == n,
        ReceiveOutcome::TooLong => r matches Err(e) && is_line_too_long(e),
        ReceiveOutcome::Malformed => r matches Err(e) && is_malformed(e),
    }
}

/// An Assuan protocol client.
///
/// Provides typed `send`/`recv` over the bytes of a transport.
pub struct Client {
    line_reader: LineReader,
    line_writer: LineWriter,
}

impl View for Client {
    type V = SessionModel;

    closed spec fn view(&self) -> SessionModel {
        SessionModel { input: self.line_reader@, output: self.line_writer.writer@ }
    }
}

impl Client {
    /// Create a new client, with nothing received and nothing to send.
    pub fn new() -> (c: Self)
        ensures
            c@.input == Seq::<u8>::empty(),
            c@.output == Seq::<u8>::empty(),
    {
        Client { line_reader: LineReader::new(), line_writer: LineWriter::new(Vec::new()) }
    }

    /// Send a request to the server: its line goes to the output.
    ///
    /// Returns the number of bytes written. Enforces [`MAX_LINE_SIZE`]: a
    /// request that does not fit leaves the output as it was.
    pub fn send(&mut self, req: Request) -> (r: Result<usize, Error>)
        ensures
            final(self)@.input == old(self)@.input,
            wrote_line(r, old(self)@.output, final(self)@.output, request_line(req@), request_fits(req@)),
    {
        match req {
            Request::Bye => self.line_writer.write_line(word(Verb::Bye)),
            Request::Reset => self.line_writer.write_line(word(Verb::Reset)),
            Request::Nop => self.line_writer.write_line(word(Verb::Nop)),
            Request::End => self.line_writer.write_line(word(Verb::End)),
            Request::Cancel => self.line_writer.write_line(word(Verb::Cancel)),
            Request::Help => self.line_writer.write_line(word(Verb::Help)),
            Request::Quit => self.line_writer.write_line(word(Verb::Quit)),
            Request::Auth => self.line_writer.write_line(word(Verb::Auth)),
            Request::SetOption { key, value } => {
                let mut line: Vec<u8> = Vec::new();
                push_all(&mut line, word(Verb::SetOption));
                line.push(SPACE);
                push_all(&mut line, key.as_str().as_bytes());
                proof {
                    lemma_utf8_empty(value@);
                }
                if !value.as_str().is_empty() {
                    line.push(EQUALS);
                    push_all(&mut line, value.as_str().as_bytes());
                }
                self.line_writer.write_line(line.as_slice())
            },
            Request::Data(data) => self.line_writer.write_data(data.as_slice()),
            Request::Comment(s) => {
                let mut line: Vec<u8> = Vec::new();
                push_all(&mut line, word(Verb::Comment));
                line.push(SPACE);
                push_all(&mut line, s.as_str().as_bytes());
                self.line_writer.write_line(line.as_slice())
            },
            Request::Command { name, args } => match args {
                None => self.line_writer.write_line(name.as_str().as_bytes()),
                Some(args) => {
                    let arg_bytes = args.as_str().as_bytes();
                    proof {
                        percent::lemma_encode_len(arg_bytes@);
                    }
                    if arg_bytes.len() >= MAX_LINE_SIZE {
                        return Err(Error::line_too_long());
                    }
                    let encoded_len = percent::encoded_len(arg_bytes.len());
                    let mut buf: Vec<u8> = Vec::new();
                    push_all(&mut buf, name.as_str().as_bytes());
                    buf.push(SPACE);
                    let mut enc_buf = vec![0u8; encoded_len];
                    let n = percent::encode(arg_bytes, &mut enc_buf);
                    push_all(&mut buf, &enc_buf[0..n]);
                    self.line_writer.write_line(buf.as_slice())
                },
            },
        }
    }

    /// Receive the next response from the server.
    ///
    /// `event` is what happened since the last call: [`ReadEvent::Start`]
    /// for a new response, or what the transport gave after
    /// [`Incoming::Fill`]. Returns [`Incoming::Closed`] at the end of the
    /// transport.
    pub fn recv(&mut self, event: ReadEvent) -> (r: Result<Incoming<Response>, Error>)
        ensures
            receives(r, receive(old(self)@.input, event)),
            final(self)@.input == read_outcome(old(self)@.input, event).1,
            final(self)@.output == old(self)@.output,
    {
        match self.line_reader.read(event) {
            Ok(ReadStep::Line(line)) => {
                let mut line = line;
                match Response::parse(line.as_mut_slice()) {
                    Ok(resp) => Ok(Incoming::Message(resp)),
                    Err(e) => Err(e),
                }
            },
            Ok(ReadStep::Closed) => Ok(Incoming::Closed),
            Ok(ReadStep::Fill(n)) => Ok(Incoming::Fill(n)),
            Err(e) => Err(e),
        }
    }

    /// Takes out the bytes written so far, to be sent.
    pub fn take_output(&mut self) -> (v: Vec<u8>)
        ensures
            v@ == old(self)@.output,
            final(self)@.input == old(self)@.input,
            final(self)@.output == Seq::<u8>::empty(),
    {
        let mut out: Vec<u8> = Vec::new();
        std::mem::swap(&mut out, &mut self.line_writer.writer);
        out
    }
}

/// Whether a response arrives as it was written: it reads back as itself,
/// and its line holds no `\n` and does not end in `\r`.
pub open spec fn travels_intact(r: ResponseModel) -> bool {
    &&& response_model_wf(r)
    &&& response_reparses(r)
    &&& find_byte(response_line(r), LF) == response_line(r).len()
    &&& (response_line(r).len() > 0 ==> response_line(r).last() != CR)
}

/// What a server writes, a client reads: when the bytes held, with those
/// that arrive, are a response's line and newline followed by `rest`, the
/// client receives that same response and keeps `rest` for what follows.
pub proof fn lemma_sent_response_received(pending: Seq<u8>, event: ReadEvent, r: ResponseModel, rest: Seq<u8>)
    requires
        !(event is Eof),
        travels_intact(r),
        gathered(pending, event) == response_line(r) + seq![LF] + rest,
    ensures
        receive(pending, event) == ReceiveOutcome::Response(r),
        read_outcome(pending, event).1 == rest,
{
    lemma_read_written_line(pending, event, response_line(r), rest);
    lemma_response_round_trip(r);
}

/// The bytes of responses written one after another, each with its newline.
pub open spec fn response_wire(rs: Seq<ResponseModel>) -> Seq<u8>
    decreases rs.len(),
{
    if rs.len() == 0 {
        Seq::empty()
    } else {
        response_line(rs[0]) + seq![LF] + response_wire(rs.drop_first())
    }
}

/// What `k` calls of `Client::recv` with [`ReadEvent::Start`], one after
/// another, come to when the client holds `pending`.
pub open spec fn receive_each(pending: Seq<u8>, k: nat) -> Seq<ReceiveOutcome>
    decreases k,
{
    if k == 0 {
        Seq::empty()
    } else {
        seq![receive(pending, ReadEvent::Start)] + receive_each(
            read_outcome(pending, ReadEvent::Start).1,
            (k - 1) as nat,
        )
    }
}

/// The bytes a client holds after `k` such calls.
pub open spec fn held_after(pending: Seq<u8>, k: nat) -> Seq<u8>
    decreases k,
{
    if k == 0 {
        pending
    } else {
        held_after(read_outcome(pending, ReadEvent::Start).1, (k - 1) as nat)
    }
}

/// A client that holds a sequence of written responses, followed by `rest`,
/// receives them one by one, in order and unchanged, and then holds `rest`.
pub proof fn lemma_responses_received_in_order(rs: Seq<ResponseModel>, rest: Seq<u8>)
    requires
        forall|i: int| 0 <= i < rs.len() ==> travels_intact(#[trigger] rs[i]),
    ensures
        receive_each(response_wire(rs) + rest, rs.len()) == rs.map_values(
            |r: ResponseModel| ReceiveOutcome::Response(r),
        ),
        held_after(response_wire(rs) + rest, rs.len()) == rest,
    decreases rs.len(),
{
    if rs.len() == 0 {
        assert(response_wire(rs) + rest =~= rest);
        assert(rs.map_values(|r: ResponseModel| ReceiveOutcome::Response(r)) =~= Seq::empty());
    } else {
        let tail = rs.drop_first();
        let after = response_wire(tail) + rest;
        let all = response_wire(rs) + rest;
        assert(all =~= response_line(rs[0]) + seq![LF] + after);
        assert(travels_intact(rs[0]));
        lemma_sent_response_received(all, ReadEvent::Start, rs[0], after);
        assert forall|i: int| 0 <= i < tail.len() implies travels_intact(#[trigger] tail[i]) by {
            assert(tail[i] == rs[i + 1]);
        }
        lemma_responses_received_in_order(tail, rest);
        assert(receive_each(all, rs.len()) =~= rs.map_values(
            |r: ResponseModel| ReceiveOutcome::Response(r),
        ));
    }
}

} // verus!
