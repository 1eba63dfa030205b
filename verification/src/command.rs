//! The commands that a caller can type.

use vstd::prelude::*;
use vstd::string::*;

use crate::text::{
    parse_number, same_text, split_whitespace, texts, to_upper, unsigned, upper_text, words,
};

verus! {

/// What a typed line asks for.
#[derive(Debug)]
pub enum Command {
    /// Nothing: the line is blank.
    Empty,
    Help,
    Info,
    List,
    Sent,
    Logins,
    Heard,
    Files,
    Download(String),
    DownloadUsage,
    Read(i64),
    ReadUsage,
    Delete(i64),
    DeleteUsage,
    /// A message identifier that is no positive number.
    InvalidId,
    Connect { destination: String, ssid: String },
    ConnectUsage,
    Send(String),
    SendUsage,
    Quit,
    Unknown,
}

/// `Command` as a mathematical value.
#[verifier::ext_equal]
pub enum CommandView {
    Empty,
    Help,
    Info,
    List,
    Sent,
    Logins,
    Heard,
    Files,
    Download(Seq<char>),
    DownloadUsage,
    Read(i64),
    ReadUsage,
    Delete(i64),
    DeleteUsage,
    InvalidId,
    Connect { destination: Seq<char>, ssid: Seq<char> },
    ConnectUsage,
    Send(Seq<char>),
    SendUsage,
    Quit,
    Unknown,
}

impl View for Command {
    type V = CommandView;

    open spec fn view(&self) -> CommandView {
        match self {
            Command::Empty => CommandView::Empty,
            Command::Help => CommandView::Help,
            Command::Info => CommandView::Info,
            Command::List => CommandView::List,
            Command::Sent => CommandView::Sent,
            Command::Logins => CommandView::Logins,
            Command::Heard => CommandView::Heard,
            Command::Files => CommandView::Files,
            Command::Download(name) => CommandView::Download(name@),
            Command::DownloadUsage => CommandView::DownloadUsage,
            Command::Read(id) => CommandView::Read(*id),
            Command::ReadUsage => CommandView::ReadUsage,
            Command::Delete(id) => CommandView::Delete(*id),
            Command::DeleteUsage => CommandView::DeleteUsage,
            Command::InvalidId => CommandView::InvalidId,
            Command::Connect { destination, ssid } => CommandView::Connect {
                destination: destination@,
                ssid: ssid@,
            },
            Command::ConnectUsage => CommandView::ConnectUsage,
            Command::Send(recipient) => CommandView::Send(recipient@),
            Command::SendUsage => CommandView::SendUsage,
            Command::Quit => CommandView::Quit,
            Command::Unknown => CommandView::Unknown,
        }
    }
}

/// The message identifier that a text stands for: a positive number.
pub open spec fn message_id(text: Seq<char>) -> Option<i64> {
    match unsigned(text) {
        Some(n) => if 0 < n <= i64::MAX {
            Some(n as i64)
        } else {
            None
        },
        None => None,
    }
}

/// The message identifier that a text stands for, if it is a positive number.
pub fn parse_message_id(text: &str) -> (r: Option<i64>)
    ensures
        r == message_id(text@),
{
    match parse_number(text, i64::MAX as u64) {
        Some(n) => {
            if n == 0 {
                None
            } else {
                Some(n as i64)
            }
        },
        None => None,
    }
}

/// What the words of a line ask for. The case of the command makes no
/// difference, and a command without arguments takes none.
pub open spec fn command_of(w: Seq<Seq<char>>) -> CommandView {
    if w.len() == 0 {
        CommandView::Empty
    } else {
        let command = upper_text(w[0]);
        let alone = w.len() == 1;
        if command == "HELP"@ && alone {
            CommandView::Help
        } else if command == "INFO"@ && alone {
            CommandView::Info
        } else if command == "LIST"@ && alone {
            CommandView::List
        } else if command == "SENT"@ && alone {
            CommandView::Sent
        } else if command == "LOGINS"@ && alone {
            CommandView::Logins
        } else if command == "HEARD"@ && alone {
            CommandView::Heard
        } else if command == "FILES"@ && alone {
            CommandView::Files
        } else if command == "DOWNLOAD"@ {
            if w.len() == 2 {
                CommandView::Download(w[1])
            } else {
                CommandView::DownloadUsage
            }
        } else if command == "READ"@ {
            if w.len() != 2 {
                CommandView::ReadUsage
            } else {
                match message_id(w[1]) {
                    Some(id) => CommandView::Read(id),
                    None => CommandView::InvalidId,
                }
            }
        } else if command == "DELETE"@ {
            if w.len() != 2 {
                CommandView::DeleteUsage
            } else {
                match message_id(w[1]) {
                    Some(id) => CommandView::Delete(id),
                    None => CommandView::InvalidId,
                }
            }
        } else if command == "CONNECT"@ {
            if w.len() == 3 {
                CommandView::Connect { destination: w[1], ssid: w[2] }
            } else {
                CommandView::ConnectUsage
            }
        } else if command == "SEND"@ {
            if w.len() == 2 {
                CommandView::Send(w[1])
            } else {
                CommandView::SendUsage
            }
        } else if (command == "QUIT"@ || command == "BYE"@ || command == "EXIT"@) && alone {
            CommandView::Quit
        } else {
            CommandView::Unknown
        }
    }
}

/// What a line asks for.
pub open spec fn line_command(line: Seq<char>) -> CommandView {
    command_of(words(line))
}

/// What a line asks for.
pub fn parse_command(line: &str) -> (r: Command)
    ensures
        r@ == line_command(line@),
{
    let fields: Vec<String> = split_whitespace(line);
    let ghost w = texts(fields@);
    let n: usize = fields.len();
    if n == 0 {
        return Command::Empty;
    }
    assert(w[0] == fields@[0]@);
    let upper: String = to_upper(fields[0].as_str());
    let command: &str = upper.as_str();
    let alone: bool = n == 1;
    if alone && same_text(command, "HELP") {
        Command::Help
    } else if alone && same_text(command, "INFO") {
        Command::Info
    } else if alone && same_text(command, "LIST") {
        Command::List
    } else if alone && same_text(command, "SENT") {
        Command::Sent
    } else if alone && same_text(command, "LOGINS") {
        Command::Logins
    } else if alone && same_text(command, "HEARD") {
        Command::Heard
    } else if alone && same_text(command, "FILES") {
        Command::Files
    } else if same_text(command, "DOWNLOAD") {
        if n == 2 {
            assert(w[1] == fields@[1]@);
            Command::Download(fields[1].clone())
        } else {
            Command::DownloadUsage
        }
    } else if same_text(command, "READ") {
        if n != 2 {
            Command::ReadUsage
        } else {
            assert(w[1] == fields@[1]@);
            match parse_message_id(fields[1].as_str()) {
                Some(id) => Command::Read(id),
                None => Command::InvalidId,
            }
        }
    } else if same_text(command, "DELETE") {
        if n != 2 {
            Command::DeleteUsage
        } else {
            assert(w[1] == fields@[1]@);
            match parse_message_id(fields[1].as_str()) {
                Some(id) => Command::Delete(id),
                None => Command::InvalidId,
            }
        }
    } else if same_text(command, "CONNECT") {
        if n == 3 {
            assert(w[1] == fields@[1]@);
            assert(w[2] == fields@[2]@);
            Command::Connect { destination: fields[1].clone(), ssid: fields[2].clone() }
        } else {
            Command::ConnectUsage
        }
    } else if same_text(command, "SEND") {
        if n == 2 {
            assert(w[1] == fields@[1]@);
            Command::Send(fields[1].clone())
        } else {
            Command::SendUsage
        }
    } else if alone && (same_text(command, "QUIT") || same_text(command, "BYE") || same_text(
        command,
        "EXIT",
    )) {
        Command::Quit
    } else {
        Command::Unknown
    }
}

/// The case of a command makes no difference.
pub proof fn law_command_case_is_ignored(w: Seq<Seq<char>>, first: Seq<char>)
    requires
        w.len() > 0,
        upper_text(first) == upper_text(w[0]),
    ensures
        command_of(w.update(0, first)) == command_of(w),
{
}

/// A message can be asked for by the number under which it was announced.
pub proof fn law_message_id_reads_back(id: i64)
    requires
        id > 0,
    ensures
        message_id(crate::text::integer(id as int)) == Some(id),
{
    crate::text::law_decimal_reads_back(id as nat);
}

/// A command is understood where its word stands alone or with the arguments
/// that it takes, and nowhere else; what it is given is the argument as it was
/// typed, and a message is meant by its positive number.
pub proof fn law_commands(line: Seq<char>)
    ensures
        ({
            let w = words(line);
            let argued = |word: Seq<char>, n: int| w.len() == n && upper_text(w[0]) == word;
            let misused = |word: Seq<char>, n: int|
                w.len() > 0 && w.len() != n && upper_text(w[0]) == word;
            let numbered = w.len() == 2 && unsigned(w[1]) is Some && 0 < unsigned(w[1])->0
                <= 0x7fff_ffff_ffff_ffff;
            &&& line_command(line) is Empty <==> w.len() == 0
            &&& line_command(line) is Help <==> w.len() == 1 && upper_text(w[0]) == "HELP"@
            &&& line_command(line) is Info <==> w.len() == 1 && upper_text(w[0]) == "INFO"@
            &&& line_command(line) is List <==> w.len() == 1 && upper_text(w[0]) == "LIST"@
            &&& line_command(line) is Sent <==> w.len() == 1 && upper_text(w[0]) == "SENT"@
            &&& line_command(line) is Logins <==> w.len() == 1 && upper_text(w[0]) == "LOGINS"@
            &&& line_command(line) is Heard <==> w.len() == 1 && upper_text(w[0]) == "HEARD"@
            &&& line_command(line) is Files <==> w.len() == 1 && upper_text(w[0]) == "FILES"@
            &&& line_command(line) is Download <==> argued("DOWNLOAD"@, 2)
            &&& line_command(line) matches CommandView::Download(name) ==> name == w[1]
            &&& line_command(line) is DownloadUsage <==> misused("DOWNLOAD"@, 2)
            &&& line_command(line) is Read <==> argued("READ"@, 2) && numbered
            &&& line_command(line) matches CommandView::Read(id) ==> id == unsigned(w[1])->0
            &&& line_command(line) is ReadUsage <==> misused("READ"@, 2)
            &&& line_command(line) is Delete <==> argued("DELETE"@, 2) && numbered
            &&& line_command(line) matches CommandView::Delete(id) ==> id == unsigned(w[1])->0
            &&& line_command(line) is DeleteUsage <==> misused("DELETE"@, 2)
            &&& line_command(line) is InvalidId <==> (argued("READ"@, 2) || argued("DELETE"@, 2))
                && !numbered
            &&& line_command(line) is Connect <==> argued("CONNECT"@, 3)
            &&& line_command(line) matches CommandView::Connect { destination, ssid }
                ==> destination == w[1] && ssid == w[2]
            &&& line_command(line) is ConnectUsage <==> misused("CONNECT"@, 3)
            &&& line_command(line) is Send <==> argued("SEND"@, 2)
            &&& line_command(line) matches CommandView::Send(recipient) ==> recipient == w[1]
            &&& line_command(line) is SendUsage <==> misused("SEND"@, 2)
            &&& line_command(line) is Quit <==> argued("QUIT"@, 1) || argued("BYE"@, 1) || argued(
                "EXIT"@,
                1,
            )
        }),
{
    reveal_strlit("HELP");
    reveal_strlit("INFO");
    reveal_strlit("LIST");
    reveal_strlit("SENT");
    reveal_strlit("LOGINS");
    reveal_strlit("HEARD");
    reveal_strlit("FILES");
    reveal_strlit("DOWNLOAD");
    reveal_strlit("READ");
    reveal_strlit("DELETE");
    reveal_strlit("CONNECT");
    reveal_strlit("SEND");
    reveal_strlit("QUIT");
    reveal_strlit("BYE");
    reveal_strlit("EXIT");
    assert("HELP"@.len() == 4);
    assert("HELP"@[0] == 'H');
    assert("HELP"@[1] == 'E');
    assert("HELP"@[2] == 'L');
    assert("HELP"@[3] == 'P');
    assert("INFO"@.len() == 4);
    assert("INFO"@[0] == 'I');
    assert("INFO"@[1] == 'N');
    assert("INFO"@[2] == 'F');
    assert("INFO"@[3] == 'O');
    assert("LIST"@.len() == 4);
    assert("LIST"@[0] == 'L');
    assert("LIST"@[1] == 'I');
    assert("LIST"@[2] == 'S');
    assert("LIST"@[3] == 'T');
    assert("SENT"@.len() == 4);
    assert("SENT"@[0] == 'S');
    assert("SENT"@[1] == 'E');
    assert("SENT"@[2] == 'N');
    assert("SENT"@[3] == 'T');
    assert("LOGINS"@.len() == 6);
    assert("LOGINS"@[0] == 'L');
    assert("LOGINS"@[1] == 'O');
    assert("LOGINS"@[2] == 'G');
    assert("LOGINS"@[3] == 'I');
    assert("HEARD"@.len() == 5);
    assert("HEARD"@[0] == 'H');
    assert("HEARD"@[1] == 'E');
    assert("HEARD"@[2] == 'A');
    assert("HEARD"@[3] == 'R');
    assert("FILES"@.len() == 5);
    assert("FILES"@[0] == 'F');
    assert("FILES"@[1] == 'I');
    assert("FILES"@[2] == 'L');
    assert("FILES"@[3] == 'E');
    assert("DOWNLOAD"@.len() == 8);
    assert("DOWNLOAD"@[0] == 'D');
    assert("DOWNLOAD"@[1] == 'O');
    assert("DOWNLOAD"@[2] == 'W');
    assert("DOWNLOAD"@[3] == 'N');
    assert("READ"@.len() == 4);
    assert("READ"@[0] == 'R');
    assert("READ"@[1] == 'E');
    assert("READ"@[2] == 'A');
    assert("READ"@[3] == 'D');
    assert("DELETE"@.len() == 6);
    assert("DELETE"@[0] == 'D');
    assert("DELETE"@[1] == 'E');
    assert("DELETE"@[2] == 'L');
    assert("DELETE"@[3] == 'E');
    assert("CONNECT"@.len() == 7);
    assert("CONNECT"@[0] == 'C');
    assert("CONNECT"@[1] == 'O');
    assert("CONNECT"@[2] == 'N');
    assert("CONNECT"@[3] == 'N');
    assert("SEND"@.len() == 4);
    assert("SEND"@[0] == 'S');
    assert("SEND"@[1] == 'E');
    assert("SEND"@[2] == 'N');
    assert("SEND"@[3] == 'D');
    assert("QUIT"@.len() == 4);
    assert("QUIT"@[0] == 'Q');
    assert("QUIT"@[1] == 'U');
    assert("QUIT"@[2] == 'I');
    assert("QUIT"@[3] == 'T');
    assert("BYE"@.len() == 3);
    assert("BYE"@[0] == 'B');
    assert("BYE"@[1] == 'Y');
    assert("BYE"@[2] == 'E');
    assert("EXIT"@.len() == 4);
    assert("EXIT"@[0] == 'E');
    assert("EXIT"@[1] == 'X');
    assert("EXIT"@[2] == 'I');
    assert("EXIT"@[3] == 'T');
}

/// A command is handed over with its arguments as they were typed.
pub proof fn law_commands_are_what_is_held(a: String, b: String, id: i64)
    ensures
        Command::Download(a)@ == CommandView::Download(a@),
        Command::Read(id)@ == CommandView::Read(id),
        Command::Delete(id)@ == CommandView::Delete(id),
        (Command::Connect { destination: a, ssid: b })@ == (CommandView::Connect {
            destination: a@,
            ssid: b@,
        }),
        Command::Send(a)@ == CommandView::Send(a@),
{
}

} // verus!
