use assuan::Request;

// -- parse --

#[test]
fn parse_command_only() {
    let mut line = b"GETPIN".to_vec();
    let req = Request::parse(&mut line).unwrap();
    assert_eq!(req, Request::Command { name: "GETPIN".into(), args: None });
}

#[test]
fn parse_command_with_args() {
    let mut line = b"SETDESC Enter passphrase".to_vec();
    let req = Request::parse(&mut line).unwrap();
    assert_eq!(
        req,
        Request::Command {
            name: "SETDESC".into(),
            args: Some("Enter passphrase".into()),
        }
    );
}

#[test]
fn parse_lowercase_uppercased() {
    let mut line = b"getpin".to_vec();
    let req = Request::parse(&mut line).unwrap();
    assert_eq!(req, Request::Command { name: "GETPIN".into(), args: None });
}

#[test]
fn parse_percent_decoded_args() {
    let mut line = b"SETDESC hello%20world".to_vec();
    let req = Request::parse(&mut line).unwrap();
    assert_eq!(
        req,
        Request::Command {
            name: "SETDESC".into(),
            args: Some("hello world".into()),
        }
    );
}

#[test]
fn parse_comment_line() {
    let mut line = b"# this is a comment".to_vec();
    let req = Request::parse(&mut line).unwrap();
    assert_eq!(req, Request::Comment("this is a comment".into()));
}

#[test]
fn parse_empty_line() {
    let mut line = b"".to_vec();
    assert!(Request::parse(&mut line).is_err());
}

#[test]
fn parse_option_with_equals() {
    let mut line = b"OPTION display=:0".to_vec();
    let req = Request::parse(&mut line).unwrap();
    assert_eq!(
        req,
        Request::SetOption {
            key: "display".into(),
            value: ":0".into(),
        }
    );
}

#[test]
fn parse_bye() {
    let mut line = b"BYE".to_vec();
    assert_eq!(Request::parse(&mut line).unwrap(), Request::Bye);
}

#[test]
fn parse_reset() {
    let mut line = b"RESET".to_vec();
    assert_eq!(Request::parse(&mut line).unwrap(), Request::Reset);
}

#[test]
fn parse_nop() {
    let mut line = b"NOP".to_vec();
    assert_eq!(Request::parse(&mut line).unwrap(), Request::Nop);
}

#[test]
fn parse_end() {
    let mut line = b"END".to_vec();
    assert_eq!(Request::parse(&mut line).unwrap(), Request::End);
}

#[test]
fn parse_cancel() {
    let mut line = b"CAN".to_vec();
    assert_eq!(Request::parse(&mut line).unwrap(), Request::Cancel);
}

#[test]
fn parse_data() {
    let mut line = b"D hello".to_vec();
    let req = Request::parse(&mut line).unwrap();
    assert_eq!(req, Request::Data(b"hello".to_vec()));
}

#[test]
fn parse_data_encoded() {
    let mut line = b"D hello%0Aworld".to_vec();
    let req = Request::parse(&mut line).unwrap();
    assert_eq!(req, Request::Data(b"hello\nworld".to_vec()));
}

// -- write_to --

#[test]
fn write_bye() {
    let mut buf = Vec::new();
    Request::Bye.write_to(&mut buf).unwrap();
    assert_eq!(buf, b"BYE\n");
}

#[test]
fn write_command_no_args() {
    let mut buf = Vec::new();
    Request::Command { name: "GETPIN".into(), args: None }
        .write_to(&mut buf)
        .unwrap();
    assert_eq!(buf, b"GETPIN\n");
}

#[test]
fn write_command_with_args() {
    let mut buf = Vec::new();
    Request::Command { name: "SETDESC".into(), args: Some("hello world".into()) }
        .write_to(&mut buf)
        .unwrap();
    // Spaces are NOT percent-encoded in command args (only in D data lines).
    assert_eq!(buf, b"SETDESC hello world\n");
}

#[test]
fn write_data_line() {
    let mut buf = Vec::new();
    Request::Data(b"hello".to_vec()).write_to(&mut buf).unwrap();
    assert_eq!(buf, b"D hello\n");
}

#[test]
fn write_option() {
    let mut buf = Vec::new();
    Request::SetOption { key: "display".into(), value: ":0".into() }
        .write_to(&mut buf)
        .unwrap();
    assert_eq!(buf, b"OPTION display=:0\n");
}

// -- round-trip --

#[test]
fn roundtrip_bye() {
    let mut buf = Vec::new();
    Request::Bye.write_to(&mut buf).unwrap();
    let req = Request::parse(&mut buf).unwrap();
    assert_eq!(req, Request::Bye);
}

#[test]
fn roundtrip_command() {
    let original = Request::Command {
        name: "SETDESC".into(),
        args: Some("Enter passphrase".into()),
    };
    let mut buf = Vec::new();
    original.write_to(&mut buf).unwrap();
    let parsed = Request::parse(&mut buf).unwrap();
    assert_eq!(parsed, original);
}

// -- Display --

#[test]
fn display_bye() {
    assert_eq!(Request::Bye.to_string(), "BYE");
}

#[test]
fn display_command() {
    assert_eq!(
        Request::Command { name: "GETPIN".into(), args: None }.to_string(),
        "GETPIN"
    );
    assert_eq!(
        Request::Command { name: "SETDESC".into(), args: Some("hello".into()) }.to_string(),
        "SETDESC hello"
    );
}
