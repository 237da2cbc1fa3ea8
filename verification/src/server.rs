//! Assuan server: the decisions of a server session.
//!
//! A [`Server`] reads requests from the bytes that its transport delivers
//! and answers the protocol-level requests itself: `BYE` and `NOP` are
//! answered with `OK` and never surface, comment lines are skipped, and
//! `RESET` is answered with `OK` and then surfaces. It does no I/O: the bytes
//! to send collect in an output buffer, and [`Server::recv`] asks for more
//! bytes when it needs them.
use vstd::prelude::*;

use crate::error::{is_line_too_long, is_malformed, Error};
use crate::line_reader::{
    gathered, lemma_read_written_line, read_outcome, LineReader, ReadEvent, ReadOutcome, ReadStep,
};
use crate::request::{
    lemma_request_round_trip, parse_request, request_line, request_model_wf, request_reparses, Request,
    RequestModel,
};
use crate::response::{response_fits, response_line, Response, ResponseModel};
use crate::wire::{find_byte, CR, LF};

verus! {

/// What arrives from a peer.
#[derive(Debug)]
pub enum Incoming<T> {
    /// A message.
    Message(T),
    /// The peer ended the session, or the transport ended.
    Closed,
    /// More bytes are needed: read at most this many from the transport and
    /// hand them over as [`ReadEvent::Input`], or hand over
    /// [`ReadEvent::Eof`] when the transport has ended.
    Fill(usize),
}

/// The state of a session: the bytes received and not yet read as a line,
/// and the bytes written and not yet taken out to be sent.
pub struct SessionModel {
    pub input: Seq<u8>,
    pub output: Seq<u8>,
}

/// What a call of `Server::recv` comes to.
pub enum ServeOutcome {
    Request(RequestModel),
    Closed,
    Fill(nat),
    TooLong,
    Malformed,
}

/// A call of `Server::recv` as a model: what it returns, the input it leaves
/// and the output it writes.
pub struct Served {
    pub outcome: ServeOutcome,
    pub pending: Seq<u8>,
    pub output: Seq<u8>,
}

/// The line that answers a protocol request: `OK\n`.
pub open spec fn ok_reply() -> Seq<u8> {
    response_line(ResponseModel::Okay(None)) + seq![LF]
}

/// A line that the reader returns leaves fewer bytes than it was given.
pub proof fn lemma_line_consumes(pending: Seq<u8>, event: ReadEvent)
    ensures
        read_outcome(pending, event).0 is Line ==> read_outcome(pending, event).1.len() < gathered(
            pending,
            event,
        ).len(),
{
    crate::wire::lemma_find_byte(gathered(pending, event), LF);
}

/// What the server does with the bytes it holds and one event: it reads
/// lines until one of them surfaces, the session closes, or it needs more
/// bytes.
///
/// `BYE` is answered with `OK` and closes; `NOP` is answered with `OK` and
/// skipped; a comment is skipped; `RESET` is answered with `OK` and
/// surfaces; every other request surfaces. A line that does not parse, or
/// one too long, is an error.
pub open spec fn serve(pending: Seq<u8>, event: ReadEvent) -> Served
    decreases gathered(pending, event).len(),
{
    let (out, rest) = read_outcome(pending, event);
    match out {
        ReadOutcome::Closed => Served { outcome: ServeOutcome::Closed, pending: rest, output: Seq::empty() },
        ReadOutcome::Fill(n) => Served {
            outcome: ServeOutcome::Fill(n),
            pending: rest,
            output: Seq::empty(),
        },
        ReadOutcome::TooLong => Served {
            outcome: ServeOutcome::TooLong,
            pending: rest,
            output: Seq::empty(),
        },
        ReadOutcome::Line(l) => match parse_request(l) {
            None => Served { outcome: ServeOutcome::Malformed, pending: rest, output: Seq::empty() },
            Some(req) => match req {
                RequestModel::Bye => Served { outcome: ServeOutcome::Closed, pending: rest, output: ok_reply() },
                RequestModel::Nop => {
                    proof {
                        lemma_line_consumes(pending, event);
                    }
                    let next = serve(rest, ReadEvent::Start);
                    Served { outcome: next.outcome, pending: next.pending, output: ok_reply() + next.output }
                },
                RequestModel::Comment(_) => {
                    proof {
                        lemma_line_consumes(pending, event);
                    }
                    serve(rest, ReadEvent::Start)
                },
                RequestModel::Reset => Served {
                    outcome: ServeOutcome::Request(req),
                    pending: rest,
                    output: ok_reply(),
                },
                _ => Served { outcome: ServeOutcome::Request(req), pending: rest, output: Seq::empty() },
            },
        },
    }
}

/// Whether `r` is what `Server::recv` returns for `outcome`.
pub open spec fn serves(r: Result<Incoming<Request>, Error>, outcome: ServeOutcome) -> bool {
    match outcome {
        ServeOutcome::Request(m) => r matches Ok(Incoming::Message(q)) && q@ == m,
        ServeOutcome::Closed => r matches Ok(Incoming::Closed),
        ServeOutcome::Fill(n) => r matches Ok(Incoming::Fill(k)) && k == n,
        ServeOutcome::TooLong => r matches Err(e) && is_line_too_long(e),
        ServeOutcome::Malformed => r matches Err(e) && is_malformed(e),
    }
}

/// An Assuan protocol server.
///
/// Provides typed `send`/`recv` over the bytes of a transport, and handles
/// protocol-level commands (BYE, NOP, RESET, comments) transparently.
pub struct Server {
    reader: LineReader,
    writer: Vec<u8>,
}

impl View for Server {
    type V = SessionModel;

    closed spec fn view(&self) -> SessionModel {
        SessionModel { input: self.reader@, output: self.writer@ }
    }
}

impl Server {
    /// Create a new server, with nothing received and nothing to send.
    pub fn new() -> (s: Self)
        ensures
            s@.input == Seq::<u8>::empty(),
            s@.output == Seq::<u8>::empty(),
    {
        Server { reader: LineReader::new(), writer: Vec::new() }
    }

    /// Send a response to the client: its line goes to the output.
    ///
    /// Returns the number of bytes written.
    pub fn send(&mut self, resp: Response) -> (r: Result<usize, Error>)
        ensures
            final(self)@.input == old(self)@.input,
            r is Ok <==> response_fits(resp@),
            r matches Ok(n) ==> n == response_line(resp@).len() + 1 && final(self)@.output == old(
                self,
            )@.output + response_line(resp@) + seq![LF],
            r matches Err(e) ==> is_line_too_long(e) && final(self)@.output == old(self)@.output,
    {
        resp.write_to(&mut self.writer)
    }

    /// Takes out the bytes written so far, to be sent.
    pub fn take_output(&mut self) -> (v: Vec<u8>)
        ensures
            v@ == old(self)@.output,
            final(self)@.input == old(self)@.input,
            final(self)@.output == Seq::<u8>::empty(),
    {
        let mut out: Vec<u8> = Vec::new();
        std::mem::swap(&mut out, &mut self.writer);
        out
    }

    /// Answers a protocol request with `OK`.
    fn reply_ok(&mut self)
        ensures
            final(self).reader@ == old(self).reader@,
            final(self).writer@ == old(self).writer@ + ok_reply(),
    {
        assert(response_fits(ResponseModel::Okay(None)));
        let _ = Response::Okay(None).write_to(&mut self.writer);
    }

    /// Receive the next request from the client.
    ///
    /// `event` is what happened since the last call: [`ReadEvent::Start`]
    /// for a new request, or what the transport gave after
    /// [`Incoming::Fill`]. Handles BYE and NOP transparently — they are never
    /// returned; BYE closes the session. RESET is returned after `OK` was
    /// written. Comment lines are skipped. Returns [`Incoming::Closed`] on
    /// BYE or at the end of the transport.
    pub fn recv(&mut self, event: ReadEvent) -> (r: Result<Incoming<Request>, Error>)
        ensures
            serves(r, serve(old(self)@.input, event).outcome),
            final(self)@.input == serve(old(self)@.input, event).pending,
            final(self)@.output == old(self)@.output + serve(old(self)@.input, event).output,
    {
        let ghost target = serve(self.reader@, event);
        let ghost written = self.writer@;
        let mut ev = event;
        assert(written + target.output =~= self.writer@ + serve(self.reader@, ev).output);
        loop
            invariant
                target == serve(old(self)@.input, event),
                written == old(self)@.output,
                serve(self.reader@, ev).outcome == target.outcome,
                serve(self.reader@, ev).pending == target.pending,
                written + target.output == self.writer@ + serve(self.reader@, ev).output,
            decreases gathered(self.reader@, ev).len(),
        {
            let ghost held = self.reader@;
            let ghost now = ev;
            proof {
                lemma_line_consumes(held, now);
            }
            match self.reader.read(ev) {
                Err(e) => {
                    assert(self.writer@ == written + target.output);
                    return Err(e);
                },
                Ok(ReadStep::Closed) => {
                    assert(self.writer@ =~= written + target.output);
                    return Ok(Incoming::Closed);
                },
                Ok(ReadStep::Fill(n)) => {
                    assert(self.writer@ =~= written + target.output);
                    return Ok(Incoming::Fill(n));
                },
                Ok(ReadStep::Line(line)) => {
                    let mut line = line;
                    let req = match Request::parse(line.as_mut_slice()) {
                        Ok(req) => req,
                        Err(e) => {
                            assert(self.writer@ =~= written + target.output);
                            return Err(e);
                        },
                    };
                    match req {
                        Request::Bye => {
                            self.reply_ok();
                            assert(self.writer@ =~= written + target.output);
                            return Ok(Incoming::Closed);
                        },
                        Request::Nop => {
                            self.reply_ok();
                            ev = ReadEvent::Start;
                            assert(written + target.output =~= self.writer@ + serve(self.reader@, ev).output);
                        },
                        Request::Comment(_) => {
                            ev = ReadEvent::Start;
                        },
                        Request::Reset => {
                            self.reply_ok();
                            assert(self.writer@ =~= written + target.output);
                            return Ok(Incoming::Message(Request::Reset));
                        },
                        _ => {
                            assert(self.writer@ =~= written + target.output);
                            return Ok(Incoming::Message(req));
                        },
                    }
                },
            }
        }
    }
}

/// What the server does with a request read from a line, when `rest` are
/// the bytes after that line: `BYE` closes with `OK`, `NOP` is answered with
/// `OK` and the server reads on, a comment is skipped and the server reads
/// on, `RESET` surfaces after `OK`, and every other request surfaces as it
/// is.
pub open spec fn handled(r: RequestModel, rest: Seq<u8>) -> Served {
    match r {
        RequestModel::Bye => Served { outcome: ServeOutcome::Closed, pending: rest, output: ok_reply() },
        RequestModel::Nop => {
            let next = serve(rest, ReadEvent::Start);
            Served { outcome: next.outcome, pending: next.pending, output: ok_reply() + next.output }
        },
        RequestModel::Comment(_) => serve(rest, ReadEvent::Start),
        RequestModel::Reset => Served { outcome: ServeOutcome::Request(r), pending: rest, output: ok_reply() },
        _ => Served { outcome: ServeOutcome::Request(r), pending: rest, output: Seq::empty() },
    }
}

/// What a client writes, a server reads: when the bytes held, with those
/// that arrive, are a request's line and newline followed by `rest`, the
/// server handles that same request as `handled` says and keeps `rest` for
/// what follows; so it is whenever the request reads back as itself and its
/// line holds no `\n` and does not end in `\r`. Applied line by line, this
/// gives what a session does with a whole sequence of written requests.
pub proof fn lemma_sent_request_received(pending: Seq<u8>, event: ReadEvent, r: RequestModel, rest: Seq<u8>)
    requires
        !(event is Eof),
        request_model_wf(r),
        request_reparses(r),
        find_byte(request_line(r), LF) == request_line(r).len(),
        request_line(r).len() > 0 ==> request_line(r).last() != CR,
        gathered(pending, event) == request_line(r) + seq![LF] + rest,
    ensures
        serve(pending, event) == handled(r, rest),
{
    lemma_read_written_line(pending, event, request_line(r), rest);
    lemma_request_round_trip(r);
}

/// BYE, NOP and comments never surface: whatever the server holds and
/// whatever arrives, a request that `recv` returns is none of them.
pub proof fn lemma_protocol_requests_hidden(pending: Seq<u8>, event: ReadEvent)
    ensures
        serve(pending, event).outcome matches ServeOutcome::Request(r) ==> !(r is Bye || r is Nop
            || r is Comment),
    decreases gathered(pending, event).len(),
{
    lemma_line_consumes(pending, event);
    let (out, rest) = read_outcome(pending, event);
    if let ReadOutcome::Line(l) = out {
        if let Some(req) = parse_request(l) {
            if req is Nop || req is Comment {
                lemma_protocol_requests_hidden(rest, ReadEvent::Start);
            }
        }
    }
}

/// How the server answers each request it reads from a line, with `rest`
/// the bytes after that line: a request other than `BYE`, `NOP`, `RESET`
/// and a comment surfaces as it is and nothing is written; `BYE` closes the
/// session after writing `OK\n`; `RESET` surfaces after `OK\n`; `NOP`
/// writes `OK\n` and the server reads on; a comment is skipped and the
/// server reads on. So it is whenever the request reads back as itself and
/// its line holds no `\n` and does not end in `\r`.
pub proof fn lemma_request_answers(pending: Seq<u8>, event: ReadEvent, r: RequestModel, rest: Seq<u8>)
    requires
        !(event is Eof),
        request_model_wf(r),
        request_reparses(r),
        find_byte(request_line(r), LF) == request_line(r).len(),
        request_line(r).len() > 0 ==> request_line(r).last() != CR,
        gathered(pending, event) == request_line(r) + seq![LF] + rest,
    ensures
        !(r is Bye || r is Nop || r is Reset || r is Comment) ==> serve(pending, event) == (Served {
            outcome: ServeOutcome::Request(r),
            pending: rest,
            output: Seq::empty(),
        }),
        r is Bye ==> serve(pending, event) == (Served {
            outcome: ServeOutcome::Closed,
            pending: rest,
            output: seq![0x4fu8, 0x4b, 0x0a],
        }),
        r is Reset ==> serve(pending, event) == (Served {
            outcome: ServeOutcome::Request(RequestModel::Reset),
            pending: rest,
            output: seq![0x4fu8, 0x4b, 0x0a],
        }),
        r is Nop ==> serve(pending, event) == (Served {
            outcome: serve(rest, ReadEvent::Start).outcome,
            pending: serve(rest, ReadEvent::Start).pending,
            output: seq![0x4fu8, 0x4b, 0x0a] + serve(rest, ReadEvent::Start).output,
        }),
        r is Comment ==> serve(pending, event) == serve(rest, ReadEvent::Start),
{
    lemma_sent_request_received(pending, event, r, rest);
    assert(ok_reply() =~= seq![0x4fu8, 0x4b, 0x0a]);
}

} // verus!
