use abbs::command::{parse_command, parse_message_id, Command};
use abbs::report::{list_files, list_messages, list_recent_logins, version, write_help};
use abbs::text::{
    contains, is_whitespace, join, parse_number, push_decimal, push_integer, push_left_aligned,
    push_padded, split, split_whitespace, to_upper, trim,
};

#[test]
fn white_space_is_that_of_unicode() {
    for n in 0..=0x10ffff_u32 {
        if let Some(c) = char::from_u32(n) {
            assert_eq!(is_whitespace(c), c.is_whitespace(), "{n:x}");
        }
    }
}

#[test]
fn texts_are_trimmed_and_split_as_usual() {
    for text in [
        "",
        " ",
        "a",
        " a b ",
        "\u{3000}x\u{2003}y\u{a0}",
        "\t\r\nread  7\u{b}",
        "one two\u{200b}three",
    ] {
        assert_eq!(trim(text), text.trim());
        let words: Vec<&str> = text.split_whitespace().collect();
        assert_eq!(split_whitespace(text), words);
        assert_eq!(to_upper(text), text.to_ascii_uppercase());
    }
    assert_eq!(to_upper("m0\u{e9}z{`"), "M0\u{e9}Z{`");
}

#[test]
fn joined_lines_split_again() {
    for lines in [vec![""], vec!["a"], vec!["a", "", "b"], vec!["", ""]] {
        let owned: Vec<String> = lines.iter().map(|line| line.to_string()).collect();
        let text = join(&owned, '\n');
        assert_eq!(text, lines.join("\n"));
        assert_eq!(split(&text, '\n'), lines);
    }
    assert_eq!(join(&Vec::new(), '\n'), "");
}

#[test]
fn texts_are_searched() {
    assert!(contains("CHECK (transport IN ('MERCURY'))", "'MERCURY'"));
    assert!(!contains("'MERCUR'", "'MERCURY'"));
    assert!(contains("abc", ""));
    assert!(contains("", ""));
    assert!(!contains("", "a"));
    assert!(contains("aab", "ab"));
}

#[test]
fn numbers_are_written_and_read() {
    for n in [0, 7, 10, 99, 4000, u64::MAX] {
        let mut text = String::new();
        push_decimal(&mut text, n);
        assert_eq!(text, n.to_string());
        assert_eq!(parse_number(&text, u64::MAX), Some(n));
        assert_eq!(parse_number(&format!("+00{text}"), u64::MAX), Some(n));
    }
    for n in [i64::MIN, -1, 0, 5, i64::MAX] {
        let mut text = "#".to_string();
        push_integer(&mut text, n);
        assert_eq!(text, format!("#{n}"));
    }
    for (text, max) in [
        ("", 9),
        ("+", 9),
        ("-1", 9),
        ("1x", 9),
        ("10", 9),
        ("18446744073709551616", u64::MAX),
        ("99999999999999999999999999", u64::MAX),
        ("++1", 9),
        ("\u{661}", 9),
    ] {
        assert_eq!(parse_number(text, max), None, "{text}");
    }
    assert_eq!(parse_number("15", 15), Some(15));
    assert_eq!(parse_number("16", 15), None);
    assert_eq!(parse_number("0", 0), Some(0));
    assert_eq!(parse_message_id("9223372036854775807"), Some(i64::MAX));
    assert_eq!(parse_message_id("0"), None);
}

#[test]
fn fields_are_padded() {
    let mut text = String::new();
    push_padded(&mut text, 7, 3);
    push_padded(&mut text, 1234, 3);
    push_left_aligned(&mut text, "M0A", 5);
    push_left_aligned(&mut text, "M0ABCDEF", 5);
    assert_eq!(text, "0071234M0A  M0ABCDEF");
}

#[test]
fn commands_are_parsed() {
    assert!(matches!(parse_command("  "), Command::Empty));
    assert!(matches!(parse_command("help"), Command::Help));
    assert!(matches!(parse_command("help me"), Command::Unknown));
    assert!(matches!(parse_command("Read 12"), Command::Read(12)));
    assert!(matches!(parse_command("DELETE 3"), Command::Delete(3)));
    assert!(matches!(parse_command("DELETE x"), Command::InvalidId));
    assert!(
        matches!(parse_command("download A.txt"), Command::Download(name) if name == "A.txt")
    );
    assert!(matches!(parse_command("SEND all"), Command::Send(to) if to == "all"));
    assert!(
        matches!(parse_command("connect m0dest 9"), Command::Connect { destination, ssid } if destination == "m0dest" && ssid == "9")
    );
    for leave in ["quit", "BYE", "Exit"] {
        assert!(matches!(parse_command(leave), Command::Quit));
    }
}

#[test]
fn empty_lists_are_said_to_be_empty() {
    assert_eq!(list_messages(&Vec::new()), "No messages.\r\n");
    assert_eq!(list_recent_logins(&Vec::new()), "No logins recorded.\r\n");
    assert_eq!(list_files(&Vec::new()), "No files available.\r\n");
}

#[test]
fn help_lists_the_commands_of_the_radio() {
    assert_eq!(
        write_help(true),
        "Commands:\r\n\
         \x20 LIST                 List public and your private messages\r\n\
         \x20 SENT                 List messages you sent\r\n\
         \x20 LOGINS               List the 10 most recent logins\r\n\
         \x20 HEARD                List callsigns recently heard by the AGW endpoint\r\n\
         \x20 FILES                List files available for download\r\n\
         \x20 DOWNLOAD <file>      Download a file using ZMODEM\r\n\
         \x20 CONNECT <call> <ssid> Connect to a remote BBS over AX.25\r\n\
         \x20 READ <id>            Read a visible message\r\n\
         \x20 DELETE <id>          Delete mail you sent or received\r\n\
         \x20 SEND <callsign|ALL>  Send private mail or post publicly\r\n\
         \x20 INFO                 Show BBS information\r\n\
         \x20 HELP                 Show this help\r\n\
         \x20 QUIT, BYE, EXIT      Disconnect\r\n"
    );
    let mercury = write_help(false);
    assert_eq!(mercury.lines().count(), 12);
    assert!(!mercury.contains("HEARD"));
    assert!(!mercury.contains("CONNECT"));
    assert_eq!(version(), "0.1.0");
}
