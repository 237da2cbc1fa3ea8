//! Checks on concrete values of what the library states in general.

use assuan::percent::{decode_in_place, encode, encoded_len};
use assuan::{Client, Error, ErrorCode, Incoming, LineReader, ReadEvent, ReadStep, Request, Response, Server};

fn write_request(req: &Request) -> Vec<u8> {
    let mut buf = Vec::new();
    req.write_to(&mut buf).unwrap();
    buf
}

fn is_line_too_long(e: &Error) -> bool {
    matches!(e, Error::Protocol { code: ErrorCode::ASS_LINE_TOO_LONG, msg: Some(m) } if m == "line too long")
}

fn is_malformed(e: &Error) -> bool {
    matches!(e, Error::Protocol { code: ErrorCode::ASS_INV_VALUE, msg: Some(m) } if m == "malformed line")
}

// -- percent-encoding --

#[test]
fn percent_roundtrip_every_ascii_byte() {
    let input: Vec<u8> = (0u8..0x80).collect();
    let mut encoded = vec![0u8; encoded_len(input.len())];
    let n = encode(&input, &mut encoded);
    assert!(n <= 3 * input.len());
    assert!(!encoded[..n].contains(&b'\n'));
    encoded.truncate(n);
    assert_eq!(decode_in_place(&mut encoded).unwrap().as_bytes(), input.as_slice());
}

#[test]
fn percent_decode_leaves_the_tail() {
    let mut s = b"a%41b".to_vec();
    assert_eq!(decode_in_place(&mut s).unwrap(), "aAb");
    assert_eq!(s, b"aAb1b");
}

// -- requests --

#[test]
fn request_roundtrip_option_value_with_equals() {
    let req = Request::SetOption { key: "k".into(), value: "a=b".into() };
    let mut line = write_request(&req);
    line.pop();
    assert_eq!(Request::parse(&mut line).unwrap(), req);
}

#[test]
fn request_parse_trims_option_parts() {
    let mut line = b"OPTION  display = :0 ".to_vec();
    assert_eq!(
        Request::parse(&mut line).unwrap(),
        Request::SetOption { key: "display".into(), value: ":0".into() }
    );
}

#[test]
fn request_parse_strips_crlf() {
    let mut line = b"getpin\r\n".to_vec();
    assert_eq!(
        Request::parse(&mut line).unwrap(),
        Request::Command { name: "GETPIN".into(), args: None }
    );
}

#[test]
fn request_parse_rejects_non_utf8() {
    let mut line = vec![0xff, 0xfe];
    assert!(is_malformed(&Request::parse(&mut line).unwrap_err()));
    let mut line = b"CMD %FF".to_vec();
    assert!(is_malformed(&Request::parse(&mut line).unwrap_err()));
}

#[test]
fn request_parse_uppercases_and_decodes_in_place() {
    let mut line = b"setdesc a%20b".to_vec();
    let req = Request::parse(&mut line).unwrap();
    assert_eq!(req, Request::Command { name: "SETDESC".into(), args: Some("a b".into()) });
    assert_eq!(line, b"SETDESC a b0b".to_vec());
}

#[test]
fn request_data_with_escape_roundtrips() {
    // A payload that looks like an escape is encoded and comes back as it was.
    let req = Request::Data(b"%41".to_vec());
    let mut line = write_request(&req);
    assert_eq!(line, b"D %2541\n");
    assert_eq!(Request::parse(&mut line).unwrap(), req);
}

#[test]
fn error_from_io_text_builds_message() {
    let e = Error::from_io_text("pipe broke");
    assert!(matches!(
        e,
        Error::Protocol { code: ErrorCode::GENERAL, msg: Some(ref m) } if m == "I/O: pipe broke"
    ));
}

#[test]
fn request_write_too_long_leaves_buffer() {
    let mut buf = b"kept".to_vec();
    let req = Request::Comment("c".repeat(998));
    assert!(is_line_too_long(&req.write_to(&mut buf).unwrap_err()));
    assert_eq!(buf, b"kept");
    let fits = Request::Comment("c".repeat(997));
    assert_eq!(fits.write_to(&mut buf).unwrap(), 1000);
}

#[test]
fn request_display_option_and_data() {
    let req = Request::SetOption { key: "display".into(), value: ":0".into() };
    assert_eq!(req.to_string(), "OPTION display=:0");
    assert_eq!(Request::Data(vec![1, 2]).to_string(), "D <data>");
}

// -- responses --

#[test]
fn response_parse_prefixes() {
    let cases: Vec<(&[u8], Response)> = vec![
        (b"OK", Response::Okay(None)),
        (b"OKAY", Response::Okay(None)),
        (b"OK fine", Response::Okay(Some("fine".into()))),
        (b"ERR +5", Response::Error(ErrorCode(5), None)),
        (b"ERR 263 too long", Response::Error(ErrorCode::ASS_LINE_TOO_LONG, Some("too long".into()))),
        (b"S KW", Response::Status("KW".into(), "".into())),
        (b"S KW a b", Response::Status("KW".into(), "a b".into())),
        (b"# note", Response::Comment("note".into())),
        (b"D a%0Ab", Response::Data(b"a\nb".to_vec())),
        (b"INQUIRE K", Response::Inquire("K".into(), "".into())),
    ];
    for (line, expected) in cases {
        let mut line = line.to_vec();
        let before = line.clone();
        assert_eq!(Response::parse(&mut line).unwrap(), expected);
        assert_eq!(line, before);
    }
}

#[test]
fn response_parse_errors() {
    for line in [&b"ERR x"[..], b"ERR ", b"ERR 4294967296", b"D", b"D %FF", b"HELLO", b"\xff"] {
        let mut line = line.to_vec();
        assert!(is_malformed(&Response::parse(&mut line).unwrap_err()));
    }
}

#[test]
fn response_unnamed_code_keeps_number() {
    assert_eq!(ErrorCode(9999).value(), 9999);
    assert_eq!(ErrorCode(263), ErrorCode::ASS_LINE_TOO_LONG);
    assert_eq!(ErrorCode(9999).to_string(), "9999");
}

#[test]
fn response_display_data_status_inquire() {
    assert_eq!(Response::data(vec![1]).to_string(), "D <data>");
    assert_eq!(Response::status("K", "").to_string(), "S K");
    assert_eq!(Response::inquire("K", "p").to_string(), "INQUIRE K p");
    assert_eq!(Response::Comment("x".into()).to_string(), "# x");
}

#[test]
fn response_status_too_long_boundary() {
    let fits = Response::status("K".repeat(500), "V".repeat(496));
    let mut buf = Vec::new();
    assert_eq!(fits.write_to(&mut buf).unwrap(), 1000);
    let over = Response::status("K".repeat(500), "V".repeat(497));
    let mut buf = Vec::new();
    assert!(is_line_too_long(&over.write_to(&mut buf).unwrap_err()));
    assert!(buf.is_empty());
}

// -- errors --

#[test]
fn error_from_io_has_prefix() {
    let io_err = std::io::Error::new(std::io::ErrorKind::BrokenPipe, "pipe broke");
    let e: Error = io_err.into();
    match e {
        Error::Protocol { code, msg: Some(m) } => {
            assert_eq!(code, ErrorCode::GENERAL);
            assert_eq!(m, "I/O: pipe broke");
        }
        other => panic!("unexpected {:?}", other),
    }
}

// -- line reader --

#[test]
fn reader_crlf_like_lf() {
    let mut a = LineReader::new();
    let mut b = LineReader::new();
    let la = a.read(ReadEvent::Input(b"abc\r\nrest".to_vec())).unwrap();
    let lb = b.read(ReadEvent::Input(b"abc\nrest".to_vec())).unwrap();
    match (la, lb) {
        (ReadStep::Line(x), ReadStep::Line(y)) => {
            assert_eq!(x, b"abc");
            assert_eq!(x, y);
        }
        _ => panic!("expected lines"),
    }
}

#[test]
fn reader_keeps_cr_of_last_line_at_eof() {
    let mut r = LineReader::new();
    assert!(matches!(r.read(ReadEvent::Input(b"abc\r".to_vec())).unwrap(), ReadStep::Fill(996)));
    match r.read(ReadEvent::Eof).unwrap() {
        ReadStep::Line(l) => assert_eq!(l, b"abc\r"),
        _ => panic!("expected a line"),
    }
    assert!(matches!(r.read(ReadEvent::Eof).unwrap(), ReadStep::Closed));
}

#[test]
fn reader_too_long_stays_too_long() {
    let mut r = LineReader::default();
    assert!(matches!(r.read(ReadEvent::Start).unwrap(), ReadStep::Fill(1000)));
    assert!(is_line_too_long(&r.read(ReadEvent::Input(vec![b'x'; 1000])).unwrap_err()));
    assert!(is_line_too_long(&r.read(ReadEvent::Start).unwrap_err()));
}

#[test]
fn reader_line_of_exactly_999_bytes() {
    let mut r = LineReader::new();
    let mut chunk = vec![b'y'; 999];
    chunk.push(b'\n');
    match r.read(ReadEvent::Input(chunk)).unwrap() {
        ReadStep::Line(l) => assert_eq!(l.len(), 999),
        _ => panic!("expected a line"),
    }
}

// -- server and client --

#[test]
fn server_answers_protocol_requests() {
    let mut server = Server::new();
    let mut wire = Vec::new();
    for req in [Request::Nop, Request::Comment("c".into()), Request::Reset, Request::Bye] {
        req.write_to(&mut wire).unwrap();
    }
    match server.recv(ReadEvent::Input(wire)).unwrap() {
        Incoming::Message(req) => assert_eq!(req, Request::Reset),
        _ => panic!("expected RESET"),
    }
    assert_eq!(server.take_output(), b"OK\nOK\n");
    assert!(matches!(server.recv(ReadEvent::Start).unwrap(), Incoming::Closed));
    assert_eq!(server.take_output(), b"OK\n");
    assert!(server.take_output().is_empty());
}

#[test]
fn server_reports_malformed_and_goes_on() {
    let mut server = Server::new();
    assert!(is_malformed(&server.recv(ReadEvent::Input(b"\xff\nGETPIN\n".to_vec())).unwrap_err()));
    match server.recv(ReadEvent::Start).unwrap() {
        Incoming::Message(req) => assert_eq!(req, Request::Command { name: "GETPIN".into(), args: None }),
        _ => panic!("expected GETPIN"),
    }
    assert!(matches!(server.recv(ReadEvent::Start).unwrap(), Incoming::Fill(1000)));
    assert!(matches!(server.recv(ReadEvent::Eof).unwrap(), Incoming::Closed));
}

#[test]
fn server_send_writes_response_line() {
    let mut server = Server::new();
    assert_eq!(server.send(Response::status("K", "v")).unwrap(), 6);
    assert!(is_line_too_long(&server.send(Response::ok("x".repeat(998))).unwrap_err()));
    assert_eq!(server.take_output(), b"S K v\n");
}

#[test]
fn client_send_matches_write_to() {
    let reqs = vec![
        Request::SetOption { key: "ttyname".into(), value: "".into() },
        Request::Data(b"a\nb".to_vec()),
        Request::Command { name: "SETDESC".into(), args: Some("100%".into()) },
        Request::Cancel,
    ];
    let mut client = Client::new();
    let mut expected = Vec::new();
    for req in reqs {
        let n = client.send(req.clone()).unwrap();
        assert_eq!(n, req.write_to(&mut expected).unwrap());
    }
    assert_eq!(client.take_output(), expected);
    let too_long = Request::Command { name: "CMD".into(), args: Some("x".repeat(1000)) };
    assert!(is_line_too_long(&client.send(too_long).unwrap_err()));
    assert!(client.take_output().is_empty());
}

#[test]
fn client_recv_reports_malformed() {
    let mut client = Client::new();
    assert!(is_malformed(&client.recv(ReadEvent::Input(b"FOOBAR\nOK\n".to_vec())).unwrap_err()));
    match client.recv(ReadEvent::Start).unwrap() {
        Incoming::Message(resp) => assert_eq!(resp, Response::Okay(None)),
        _ => panic!("expected OK"),
    }
}

#[test]
fn response_status_keyword_with_space_does_not_roundtrip() {
    let resp = Response::status("a b", "c");
    let mut line = Vec::new();
    resp.write_to(&mut line).unwrap();
    line.pop();
    assert_eq!(Response::parse(&mut line).unwrap(), Response::status("a", "b c"));
}
