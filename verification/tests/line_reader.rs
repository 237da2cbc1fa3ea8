use std::io::{self, Read};

use assuan::{Error, ErrorCode, LineReader, ReadEvent, ReadStep, MAX_LINE_SIZE};

/// Reads one line from `input`, moving bytes into the reader as it asks.
fn read_line<R: Read>(reader: &mut LineReader, input: &mut R) -> Result<Option<Vec<u8>>, Error> {
    let mut event = ReadEvent::Start;
    loop {
        match reader.read(event)? {
            ReadStep::Line(line) => return Ok(Some(line)),
            ReadStep::Closed => return Ok(None),
            ReadStep::Fill(room) => {
                let mut buf = vec![0u8; room];
                let n = loop {
                    match input.read(&mut buf) {
                        Ok(n) => break n,
                        Err(e) if e.kind() == io::ErrorKind::Interrupted => continue,
                        Err(e) => return Err(Error::Io(e)),
                    }
                };
                event = if n == 0 {
                    ReadEvent::Eof
                } else {
                    buf.truncate(n);
                    ReadEvent::Input(buf)
                };
            }
        }
    }
}

#[test]
fn reads_nothing() {
    let mut reader = LineReader::new();
    let mut input = io::Cursor::new(b"" as &[u8]);
    assert!(read_line(&mut reader, &mut input).unwrap().is_none());
}

#[test]
fn reads_one_line() {
    let mut reader = LineReader::new();
    let mut input = io::Cursor::new(b"a line\n" as &[u8]);
    let line = read_line(&mut reader, &mut input).unwrap().unwrap();
    assert_eq!(line, b"a line");
}

#[test]
fn reads_two_lines() {
    let mut reader = LineReader::new();
    let mut input = io::Cursor::new(b"line1\nline2\n" as &[u8]);

    let line1 = read_line(&mut reader, &mut input).unwrap().unwrap();
    assert_eq!(line1, b"line1");

    let line2 = read_line(&mut reader, &mut input).unwrap().unwrap();
    assert_eq!(line2, b"line2");
}

#[test]
fn reads_line_then_eof() {
    let mut reader = LineReader::new();
    let mut input = io::Cursor::new(b"a line\n" as &[u8]);

    let line = read_line(&mut reader, &mut input).unwrap().unwrap();
    assert_eq!(line, b"a line");

    let line2 = read_line(&mut reader, &mut input).unwrap();
    assert!(line2.is_none());
}

#[test]
fn errors_on_line_too_long() {
    let mut reader = LineReader::new();
    // Create a line that exceeds MAX_LINE_SIZE.
    let long_line = vec![b'x'; MAX_LINE_SIZE + 1];
    let mut input = io::Cursor::new(long_line);
    assert!(matches!(
        read_line(&mut reader, &mut input),
        Err(Error::Protocol { code: ErrorCode::ASS_LINE_TOO_LONG, .. })
    ));
}

#[test]
fn reads_partial_line_at_eof() {
    let mut reader = LineReader::new();
    // A line without trailing newline at EOF.
    let mut input = io::Cursor::new(b"partial" as &[u8]);
    let line = read_line(&mut reader, &mut input).unwrap().unwrap();
    assert_eq!(line, b"partial");
}

#[test]
fn strips_crlf() {
    let mut reader = LineReader::new();
    let mut input = io::Cursor::new(b"a line\r\n" as &[u8]);
    let line = read_line(&mut reader, &mut input).unwrap().unwrap();
    assert_eq!(line, b"a line");
}

#[test]
fn strips_lf_only() {
    let mut reader = LineReader::new();
    let mut input = io::Cursor::new(b"a line\n" as &[u8]);
    let line = read_line(&mut reader, &mut input).unwrap().unwrap();
    assert_eq!(line, b"a line");
}

#[test]
fn crlf_two_lines() {
    let mut reader = LineReader::new();
    let mut input = io::Cursor::new(b"line1\r\nline2\r\n" as &[u8]);

    let line1 = read_line(&mut reader, &mut input).unwrap().unwrap();
    assert_eq!(line1, b"line1");

    let line2 = read_line(&mut reader, &mut input).unwrap().unwrap();
    assert_eq!(line2, b"line2");
}
