use assuan::{Error, ErrorCode, Response};

fn collect(resp: &Response) -> (Vec<u8>, usize) {
    let mut buf = Vec::new();
    let n = resp.write_to(&mut buf).unwrap();
    (buf, n)
}

// -- Response::Okay --

#[test]
fn ok_no_message() {
    let (out, n) = collect(&Response::Okay(None));
    assert_eq!(out, b"OK\n");
    assert_eq!(n, 3);
}

#[test]
fn ok_with_message() {
    let (out, n) = collect(&Response::ok("my protocol version is 1"));
    assert_eq!(out, b"OK my protocol version is 1\n");
    assert_eq!(n, 28);
}

#[test]
fn ok_const() {
    // A plain OK is const-constructible.
    const R: Response = Response::Okay(None);
    let (out, _) = collect(&R);
    assert_eq!(out, b"OK\n");
}

// -- Response::Error --

#[test]
fn err_no_message() {
    let (out, n) = collect(&Response::err(ErrorCode::GENERAL, None));
    assert_eq!(out, b"ERR 1\n");
    assert_eq!(n, 6);
}

#[test]
fn err_with_message() {
    let (out, n) = collect(&Response::err(
        ErrorCode::ASS_UNKNOWN_CMD,
        Some("unknown command".into()),
    ));
    assert_eq!(out, b"ERR 275 unknown command\n");
    assert_eq!(n, 24);
}

// -- Response::Status --

#[test]
fn status_no_value() {
    let (out, n) = collect(&Response::status("PASSWORD_FROM_CACHE", ""));
    assert_eq!(out, b"S PASSWORD_FROM_CACHE\n");
    assert_eq!(n, 22);
}

#[test]
fn status_with_value() {
    let (out, n) = collect(&Response::status("BUTTON_INFO", "close"));
    assert_eq!(out, b"S BUTTON_INFO close\n");
    assert_eq!(n, 20);
}

// -- Response::Data --

#[test]
fn data_simple() {
    let (out, n) = collect(&Response::data(b"hello".to_vec()));
    assert_eq!(out, b"D hello\n");
    assert_eq!(n, 8);
}

#[test]
fn data_with_encoding() {
    let (out, _) = collect(&Response::data(b"hello\nworld".to_vec()));
    assert_eq!(out, b"D hello%0Aworld\n");
}

#[test]
fn data_with_percent() {
    let (out, _) = collect(&Response::data(b"100%".to_vec()));
    assert_eq!(out, b"D 100%25\n");
}

#[test]
fn data_empty() {
    let (out, _) = collect(&Response::data(vec![]));
    assert_eq!(out, b"D \n");
}

#[test]
fn data_too_long() {
    let data = vec![b'\n'; 334];
    let mut out = Vec::new();
    assert!(matches!(
        Response::data(data).write_to(&mut out),
        Err(Error::Protocol { code: ErrorCode::ASS_LINE_TOO_LONG, .. })
    ));
}

// -- Response::Comment --

#[test]
fn comment() {
    let (out, n) = collect(&Response::Comment("debug info".into()));
    assert_eq!(out, b"# debug info\n");
    assert_eq!(n, 13);
}

// -- Response::Inquire --

#[test]
fn inquire_no_params() {
    let (out, n) = collect(&Response::inquire("PASSPHRASE", ""));
    assert_eq!(out, b"INQUIRE PASSPHRASE\n");
    assert_eq!(n, 19);
}

#[test]
fn inquire_with_params() {
    let (out, n) = collect(&Response::inquire("PASSPHRASE", "key=abc"));
    assert_eq!(out, b"INQUIRE PASSPHRASE key=abc\n");
    assert_eq!(n, 27);
}

// -- Display --

#[test]
fn display_ok() {
    assert_eq!(Response::Okay(None).to_string(), "OK");
    assert_eq!(Response::ok("msg").to_string(), "OK msg");
}

#[test]
fn display_err() {
    assert_eq!(Response::err(ErrorCode::GENERAL, None).to_string(), "ERR 1");
    assert_eq!(
        Response::err(ErrorCode::GENERAL, Some("bad".into())).to_string(),
        "ERR 1 bad"
    );
}

// -- line too long --

#[test]
fn ok_too_long() {
    let msg = "x".repeat(998);
    let mut out = Vec::new();
    assert!(matches!(
        Response::ok(msg).write_to(&mut out),
        Err(Error::Protocol { code: ErrorCode::ASS_LINE_TOO_LONG, .. })
    ));
}
