use abbs::terminal::{Step, Terminal, TerminalError, TerminalInput};

fn line(terminal: &mut Terminal) -> Option<String> {
    match terminal.read_line().unwrap() {
        Step::Ready(line) => line,
        Step::Pending => panic!("the line is not complete"),
    }
}

fn fed(bytes: &[u8]) -> Terminal {
    let mut terminal = Terminal::new();
    terminal.feed(bytes);
    terminal
}

#[test]
fn accepts_cr_crlf_and_lf() {
    let mut terminal = fed(b"one\rtwo\r\nthree\n");
    terminal.feed_end();
    assert_eq!(line(&mut terminal).as_deref(), Some("one"));
    assert_eq!(line(&mut terminal).as_deref(), Some("two"));
    assert_eq!(line(&mut terminal).as_deref(), Some("three"));
    assert_eq!(line(&mut terminal), None);
}

#[test]
fn raw_reads_discard_the_lf_after_a_command_crlf() {
    let mut terminal = fed(b"DOWNLOAD file\r\nZMODEM");
    terminal.feed_end();
    assert_eq!(line(&mut terminal).as_deref(), Some("DOWNLOAD file"));
    match terminal.read_bytes(16) {
        Step::Ready(bytes) => assert_eq!(bytes, b"ZMODEM"),
        Step::Pending => panic!("nothing was read"),
    }
}

#[test]
fn detects_a_zmodem_header_before_line_decoding() {
    let mut terminal = fed(b"**\x18B00rest");
    let Step::Ready(Some(TerminalInput::Zmodem(header))) = terminal.read_input().unwrap() else {
        panic!("ZMODEM header was not detected");
    };
    assert_eq!(header, b"**\x18B00");
    match terminal.read_bytes(16) {
        Step::Ready(bytes) => assert_eq!(bytes, b"rest"),
        Step::Pending => panic!("nothing was read"),
    }
}

#[test]
fn zmodem_final_ack_does_not_prefix_the_next_command() {
    let mut terminal = fed(b"OOFILES\r");
    assert!(matches!(
        terminal.consume_zmodem_final_ack(),
        Ok(Step::Ready(true))
    ));
    assert_eq!(line(&mut terminal).as_deref(), Some("FILES"));
}

#[test]
fn an_upload_header_must_open_the_line() {
    let mut terminal = fed(b"x**\x18B00\r");
    let Step::Ready(Some(TerminalInput::Line(text))) = terminal.read_input().unwrap() else {
        panic!("a line was expected");
    };
    assert_eq!(text, "x**\u{18}B00");
}

#[test]
fn the_final_ack_may_be_missing_or_broken() {
    let mut terminal = fed(b"LIST\r");
    assert!(matches!(
        terminal.consume_zmodem_final_ack(),
        Ok(Step::Ready(false))
    ));
    assert_eq!(line(&mut terminal).as_deref(), Some("LIST"));

    let mut terminal = fed(b"OK\r");
    assert!(matches!(
        terminal.consume_zmodem_final_ack(),
        Err(TerminalError::InvalidAcknowledgement)
    ));
    assert_eq!(line(&mut terminal).as_deref(), Some("K"));

    let mut terminal = Terminal::new();
    assert!(matches!(
        terminal.consume_zmodem_final_ack(),
        Ok(Step::Pending)
    ));
    terminal.feed(b"O");
    assert!(matches!(
        terminal.consume_zmodem_final_ack(),
        Ok(Step::Pending)
    ));
    terminal.abandon_zmodem_final_ack();
    terminal.feed(b"INFO\r");
    assert_eq!(line(&mut terminal).as_deref(), Some("INFO"));

    let mut terminal = Terminal::new();
    terminal.feed_end();
    assert!(matches!(
        terminal.consume_zmodem_final_ack(),
        Ok(Step::Ready(false))
    ));
}

#[test]
fn lines_may_arrive_in_pieces() {
    let mut terminal = fed(b"on");
    assert!(matches!(terminal.read_line(), Ok(Step::Pending)));
    terminal.feed(b"e\r");
    assert_eq!(line(&mut terminal).as_deref(), Some("one"));
    assert!(matches!(terminal.read_line(), Ok(Step::Pending)));
    terminal.feed(b"\n");
    assert!(matches!(terminal.read_line(), Ok(Step::Pending)));
    terminal.feed(b"\n");
    assert_eq!(line(&mut terminal).as_deref(), Some(""));
    terminal.feed(b"last");
    terminal.feed_end();
    assert_eq!(line(&mut terminal).as_deref(), Some("last"));
    assert_eq!(line(&mut terminal), None);
}

#[test]
fn long_lines_are_refused() {
    let mut terminal = fed(&[b'a'; 16384]);
    assert!(matches!(terminal.read_line(), Ok(Step::Pending)));
    terminal.feed(b"\r");
    assert_eq!(line(&mut terminal).map(|text| text.len()), Some(16384));

    let mut terminal = fed(&[b'a'; 16385]);
    match terminal.read_line() {
        Err(error) => {
            assert_eq!(error, TerminalError::LineTooLong);
            assert_eq!(error.message(), "input line is longer than 16384 bytes");
        }
        Ok(_) => panic!("the line is too long"),
    }
    assert!(matches!(
        terminal.read_input(),
        Err(TerminalError::LineTooLong)
    ));
}

#[test]
fn lines_are_utf8() {
    let mut terminal = fed("gr\u{fc}\u{df} \u{1f4e1}\r".as_bytes());
    assert_eq!(
        line(&mut terminal).as_deref(),
        Some("gr\u{fc}\u{df} \u{1f4e1}")
    );
    terminal.feed(b"\xff\xfe\rnext\r");
    match terminal.read_line() {
        Err(error) => {
            assert_eq!(error, TerminalError::NotUtf8);
            assert_eq!(error.message(), "input is not valid UTF-8");
        }
        Ok(_) => panic!("the line is not UTF-8"),
    }
    assert_eq!(line(&mut terminal).as_deref(), Some("next"));
    assert_eq!(
        TerminalError::InvalidAcknowledgement.message(),
        "invalid ZMODEM final acknowledgement"
    );
}

#[test]
fn raw_reads_are_limited_and_end() {
    let mut terminal = fed(b"abcdef");
    match terminal.read_bytes(4) {
        Step::Ready(bytes) => assert_eq!(bytes, b"abcd"),
        Step::Pending => panic!("nothing was read"),
    }
    match terminal.read_bytes(4) {
        Step::Ready(bytes) => assert_eq!(bytes, b"ef"),
        Step::Pending => panic!("nothing was read"),
    }
    assert!(matches!(terminal.read_bytes(4), Step::Pending));
    terminal.feed_end();
    match terminal.read_bytes(4) {
        Step::Ready(bytes) => assert!(bytes.is_empty()),
        Step::Pending => panic!("the input has ended"),
    }
}

#[test]
fn output_is_written_in_order() {
    let mut terminal = Terminal::new();
    terminal.write("Subject: ");
    terminal.write_line("caf\u{e9}");
    terminal.write_bytes(&[0, 255]);
    assert_eq!(terminal.take_output(), b"Subject: caf\xc3\xa9\r\n\x00\xff");
    assert!(terminal.take_output().is_empty());
    assert!(!terminal.is_closed());
    terminal.shutdown();
    assert!(terminal.is_closed());
}
