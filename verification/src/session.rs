//! A caller's session: the dialogue from the welcome to the farewell.
//!
//! A session reacts to events. Each event is answered with output for the caller
//! and one request: what to wait for, or what to ask of the mail store, the
//! files, the radio or a remote board.

use vstd::prelude::*;
use vstd::string::*;
use vstd::utf8::*;

use crate::callsign::{
    base_of, callsign_message, is_callsign, law_ssid_keeps_base, parsed, with_suffix, Callsign,
};
use crate::command::{line_command, parse_command, Command, CommandView};
use crate::files::{file_views, AvailableFile, FileView};
use crate::report::{
    files_text, heard_text, heard_views, help_lines, info_text, labelled_line,
    law_body_lines_read_back, line, lines, list_files, list_heard, list_messages,
    list_recent_logins, list_sent_messages, logins_text, message_head, message_text, one_line,
    push_line, sent_text, visible_text, write_help, write_info, write_message, HeardStation,
    HeardView,
};
use crate::store::{
    law_saved_message_reads_back, login_views, messages_ascend, new_message, next_message_id,
    optional_callsign, readable, summary_views, LoginRecord, LoginView, Message, MessageRowView,
    MessageSummary, MessageView, StoreFault, SummaryView,
};
use crate::terminal::{
    holds_terminator, input_read, line_read, InputView, Reading, Step, Terminal, TerminalInput,
    CR,
};
use crate::text::{
    chars_of, integer, join, joined, parse_number, push_integer, same_text, texts, to_upper, trim,
    trimmed, unsigned, upper_text,
};

verus! {

/// The longest subject, in characters.
pub const MAX_SUBJECT_CHARS: usize = 80;

/// The longest body, in characters.
pub const MAX_BODY_CHARS: usize = 4000;

/// How many logins are listed.
pub const RECENT_LOGIN_LIMIT: usize = 10;

/// The radio of the board, as far as a session may use it.
#[derive(Clone, Copy, Debug, Eq, PartialEq, Structural)]
pub enum SessionRadio {
    /// An AGW endpoint, over which the caller may connect or not.
    Agw { connect: bool },
    /// A Mercury modem, which hears no stations and makes no connections.
    Mercury,
}

/// How a session is run.
#[derive(Debug)]
pub struct SessionOptions {
    pub prompt: String,
    pub body_prompt: String,
    pub show_bbs_welcome: bool,
    pub radio: SessionRadio,
}

/// What a session is waiting for.
#[derive(Debug)]
pub enum SessionState {
    /// Nothing has been written yet.
    Start,
    /// A command.
    Command,
    /// The messages that the caller may see.
    Listing,
    /// The messages that the caller has sent.
    ListingSent,
    /// The recent logins.
    ListingLogins,
    /// The stations that were heard.
    ListingHeard,
    /// The files.
    ListingFiles,
    /// The path of a file.
    Resolving { name: String },
    /// The end of a download.
    Sending,
    /// The end of an upload.
    Uploading,
    /// The acknowledgement behind an upload.
    Acknowledging,
    /// A message.
    Reading,
    /// The end of a deletion.
    Deleting,
    /// The subject of a message.
    Subject { recipient: Option<Callsign> },
    /// A line of the body of a message.
    Body { recipient: Option<Callsign>, subject: String, lines: Vec<String> },
    /// The identifier of a message.
    Saving,
    /// The AGW endpoint.
    Finding { source: Callsign, destination: Callsign },
    /// The connection to a remote board.
    Connecting,
    /// A line of the caller or data of a remote board.
    Bridged,
    /// The end of sending a line to a remote board.
    Relaying,
    /// The end of a connection that the caller leaves.
    Leaving,
    /// The end of a connection whose caller has gone.
    Dropping,
    /// Nothing: the session is over.
    Closed,
}

/// `SessionState` as a mathematical value.
#[verifier::ext_equal]
pub enum StateView {
    Start,
    Command,
    Listing,
    ListingSent,
    ListingLogins,
    ListingHeard,
    ListingFiles,
    Resolving { name: Seq<char> },
    Sending,
    Uploading,
    Acknowledging,
    Reading,
    Deleting,
    Subject { recipient: Option<Seq<char>> },
    Body { recipient: Option<Seq<char>>, subject: Seq<char>, lines: Seq<Seq<char>> },
    Saving,
    Finding { source: Seq<char>, destination: Seq<char> },
    Connecting,
    Bridged,
    Relaying,
    Leaving,
    Dropping,
    Closed,
}

impl View for SessionState {
    type V = StateView;

    open spec fn view(&self) -> StateView {
        match self {
            SessionState::Start => StateView::Start,
            SessionState::Command => StateView::Command,
            SessionState::Listing => StateView::Listing,
            SessionState::ListingSent => StateView::ListingSent,
            SessionState::ListingLogins => StateView::ListingLogins,
            SessionState::ListingHeard => StateView::ListingHeard,
            SessionState::ListingFiles => StateView::ListingFiles,
            SessionState::Resolving { name } => StateView::Resolving { name: name@ },
            SessionState::Sending => StateView::Sending,
            SessionState::Uploading => StateView::Uploading,
            SessionState::Acknowledging => StateView::Acknowledging,
            SessionState::Reading => StateView::Reading,
            SessionState::Deleting => StateView::Deleting,
            SessionState::Subject { recipient } => StateView::Subject {
                recipient: optional_callsign(*recipient),
            },
            SessionState::Body { recipient, subject, lines } => StateView::Body {
                recipient: optional_callsign(*recipient),
                subject: subject@,
                lines: texts(lines@),
            },
            SessionState::Saving => StateView::Saving,
            SessionState::Finding { source, destination } => StateView::Finding {
                source: source@,
                destination: destination@,
            },
            SessionState::Connecting => StateView::Connecting,
            SessionState::Bridged => StateView::Bridged,
            SessionState::Relaying => StateView::Relaying,
            SessionState::Leaving => StateView::Leaving,
            SessionState::Dropping => StateView::Dropping,
            SessionState::Closed => StateView::Closed,
        }
    }
}

/// What happens in a session.
#[derive(Debug)]
pub enum SessionEvent {
    /// The caller is there.
    Started,
    /// The caller has typed a line.
    Line(String),
    /// The caller has opened a ZMODEM upload with these bytes.
    Zmodem(Vec<u8>),
    /// The caller has gone.
    End,
    Summaries(Vec<MessageSummary>),
    Logins(Vec<LoginRecord>),
    Heard(Vec<HeardStation>),
    HeardFailed(String),
    Files(Vec<AvailableFile>),
    Resolved(Option<String>),
    ResolveFailed,
    /// A transfer is over: it has succeeded or not.
    Transferred(bool),
    /// The acknowledgement has come, or nobody waits for it any longer.
    Acknowledged,
    Found(Option<Message>),
    Deleted(bool),
    Saved(i64),
    /// The AGW endpoint is there or not.
    Endpoint(bool),
    Connected,
    ConnectFailed(String),
    RemoteData(Vec<u8>),
    RemoteEnd,
    RemoteFailed(String),
    RemoteSent,
    RemoteClosed,
    /// What was asked for could not be done, or the caller's input cannot be
    /// read.
    Failed,
}

/// `SessionEvent` as a mathematical value.
#[verifier::ext_equal]
pub enum EventView {
    Started,
    Line(Seq<char>),
    Zmodem(Seq<u8>),
    End,
    Summaries(Seq<SummaryView>),
    Logins(Seq<LoginView>),
    Heard(Seq<HeardView>),
    HeardFailed(Seq<char>),
    Files(Seq<FileView>),
    Resolved(Option<Seq<char>>),
    ResolveFailed,
    Transferred(bool),
    Acknowledged,
    Found(Option<MessageView>),
    Deleted(bool),
    Saved(i64),
    Endpoint(bool),
    Connected,
    ConnectFailed(Seq<char>),
    RemoteData(Seq<u8>),
    RemoteEnd,
    RemoteFailed(Seq<char>),
    RemoteSent,
    RemoteClosed,
    Failed,
}

/// A message, if there is one, as a mathematical value.
pub open spec fn optional_message(message: Option<Message>) -> Option<MessageView> {
    match message {
        Some(message) => Some(message@),
        None => None,
    }
}

impl View for SessionEvent {
    type V = EventView;

    open spec fn view(&self) -> EventView {
        match self {
            SessionEvent::Started => EventView::Started,
            SessionEvent::Line(line) => EventView::Line(line@),
            SessionEvent::Zmodem(bytes) => EventView::Zmodem(bytes@),
            SessionEvent::End => EventView::End,
            SessionEvent::Summaries(list) => EventView::Summaries(summary_views(list@)),
            SessionEvent::Logins(list) => EventView::Logins(login_views(list@)),
            SessionEvent::Heard(list) => EventView::Heard(heard_views(list@)),
            SessionEvent::HeardFailed(reason) => EventView::HeardFailed(reason@),
            SessionEvent::Files(list) => EventView::Files(file_views(list@)),
            SessionEvent::Resolved(path) => EventView::Resolved(
                crate::store::optional_text(*path),
            ),
            SessionEvent::ResolveFailed => EventView::ResolveFailed,
            SessionEvent::Transferred(done) => EventView::Transferred(*done),
            SessionEvent::Acknowledged => EventView::Acknowledged,
            SessionEvent::Found(message) => EventView::Found(optional_message(*message)),
            SessionEvent::Deleted(deleted) => EventView::Deleted(*deleted),
            SessionEvent::Saved(id) => EventView::Saved(*id),
            SessionEvent::Endpoint(there) => EventView::Endpoint(*there),
            SessionEvent::Connected => EventView::Connected,
            SessionEvent::ConnectFailed(reason) => EventView::ConnectFailed(reason@),
            SessionEvent::RemoteData(bytes) => EventView::RemoteData(bytes@),
            SessionEvent::RemoteEnd => EventView::RemoteEnd,
            SessionEvent::RemoteFailed(reason) => EventView::RemoteFailed(reason@),
            SessionEvent::RemoteSent => EventView::RemoteSent,
            SessionEvent::RemoteClosed => EventView::RemoteClosed,
            SessionEvent::Failed => EventView::Failed,
        }
    }
}

/// What a session asks for.
#[derive(Debug)]
pub enum SessionRequest {
    /// Wait for a command or an upload.
    Input,
    /// Wait for a line.
    Line,
    /// Wait for a line of the caller or for data of the remote board.
    Bridge,
    ListVisible(Callsign),
    ListSent(Callsign),
    RecentLogins(usize),
    QueryHeard,
    ListFiles,
    ResolveDownload(String),
    SendFile { path: String, name: String },
    ReceiveUpload(Vec<u8>),
    AwaitAcknowledgement,
    ReadMessage { viewer: Callsign, id: i64 },
    DeleteMessage { caller: Callsign, id: i64 },
    SaveMessage {
        sender: Callsign,
        recipient: Option<Callsign>,
        subject: String,
        body: String,
    },
    FindEndpoint,
    Connect { source: Callsign, destination: Callsign },
    SendRemote(Vec<u8>),
    DisconnectRemote,
    DropRemote,
    /// Close the terminal: the session is over.
    Close,
    /// Give the session up.
    Abort,
}

/// `SessionRequest` as a mathematical value.
#[verifier::ext_equal]
pub enum RequestView {
    Input,
    Line,
    Bridge,
    ListVisible(Seq<char>),
    ListSent(Seq<char>),
    RecentLogins(usize),
    QueryHeard,
    ListFiles,
    ResolveDownload(Seq<char>),
    SendFile { path: Seq<char>, name: Seq<char> },
    ReceiveUpload(Seq<u8>),
    AwaitAcknowledgement,
    ReadMessage { viewer: Seq<char>, id: i64 },
    DeleteMessage { caller: Seq<char>, id: i64 },
    SaveMessage {
        sender: Seq<char>,
        recipient: Option<Seq<char>>,
        subject: Seq<char>,
        body: Seq<char>,
    },
    FindEndpoint,
    Connect { source: Seq<char>, destination: Seq<char> },
    SendRemote(Seq<u8>),
    DisconnectRemote,
    DropRemote,
    Close,
    Abort,
}

impl View for SessionRequest {
    type V = RequestView;

    open spec fn view(&self) -> RequestView {
        match self {
            SessionRequest::Input => RequestView::Input,
            SessionRequest::Line => RequestView::Line,
            SessionRequest::Bridge => RequestView::Bridge,
            SessionRequest::ListVisible(viewer) => RequestView::ListVisible(viewer@),
            SessionRequest::ListSent(sender) => RequestView::ListSent(sender@),
            SessionRequest::RecentLogins(limit) => RequestView::RecentLogins(*limit),
            SessionRequest::QueryHeard => RequestView::QueryHeard,
            SessionRequest::ListFiles => RequestView::ListFiles,
            SessionRequest::ResolveDownload(name) => RequestView::ResolveDownload(name@),
            SessionRequest::SendFile { path, name } => RequestView::SendFile {
                path: path@,
                name: name@,
            },
            SessionRequest::ReceiveUpload(initial) => RequestView::ReceiveUpload(initial@),
            SessionRequest::AwaitAcknowledgement => RequestView::AwaitAcknowledgement,
            SessionRequest::ReadMessage { viewer, id } => RequestView::ReadMessage {
                viewer: viewer@,
                id: *id,
            },
            SessionRequest::DeleteMessage { caller, id } => RequestView::DeleteMessage {
                caller: caller@,
                id: *id,
            },
            SessionRequest::SaveMessage { sender, recipient, subject, body } =>
                RequestView::SaveMessage {
                sender: sender@,
                recipient: optional_callsign(*recipient),
                subject: subject@,
                body: body@,
            },
            SessionRequest::FindEndpoint => RequestView::FindEndpoint,
            SessionRequest::Connect { source, destination } => RequestView::Connect {
                source: source@,
                destination: destination@,
            },
            SessionRequest::SendRemote(bytes) => RequestView::SendRemote(bytes@),
            SessionRequest::DisconnectRemote => RequestView::DisconnectRemote,
            SessionRequest::DropRemote => RequestView::DropRemote,
            SessionRequest::Close => RequestView::Close,
            SessionRequest::Abort => RequestView::Abort,
        }
    }
}

/// A session.
#[verifier::ext_equal]
pub struct SessionView {
    /// Who the caller is.
    pub identity: Seq<char>,
    /// The callsign of the board.
    pub bbs: Seq<char>,
    pub prompt: Seq<char>,
    pub body_prompt: Seq<char>,
    pub welcome: bool,
    pub radio: SessionRadio,
    pub state: StateView,
}

/// What an event comes to.
#[verifier::ext_equal]
pub struct Outcome {
    pub state: StateView,
    /// What is written to the caller.
    pub output: Seq<u8>,
    pub request: RequestView,
}

/// Text for the caller and a request.
pub open spec fn say(state: StateView, text: Seq<char>, request: RequestView) -> Outcome {
    Outcome { state, output: encode_utf8(text), request }
}

/// A request, and nothing for the caller.
pub open spec fn ask(state: StateView, request: RequestView) -> Outcome {
    Outcome { state, output: Seq::empty(), request }
}

/// Text for the caller and the prompt: the next command is expected.
pub open spec fn answer(s: SessionView, text: Seq<char>) -> Outcome {
    say(StateView::Command, text + s.prompt, RequestView::Input)
}

/// The end of a session that cannot go on.
pub open spec fn abort() -> Outcome {
    ask(StateView::Closed, RequestView::Abort)
}

/// The first words to a caller.
pub open spec fn greeting(s: SessionView) -> Seq<char> {
    (if s.welcome {
        line("Welcome to "@ + s.bbs + " amateur radio BBS."@)
    } else {
        Seq::empty()
    }) + line("Welcome, "@ + s.identity + "."@) + line("Type HELP for commands."@)
}

/// The SSID that a text stands for.
pub open spec fn ssid_of(text: Seq<char>) -> Option<nat> {
    match unsigned(text) {
        Some(n) => if n <= 15 {
            Some(n)
        } else {
            None
        },
        None => None,
    }
}

/// What a request to connect comes to: the caller's base callsign with the SSID
/// is the source.
pub open spec fn connect_asked(
    s: SessionView,
    destination: Seq<char>,
    ssid: Seq<char>,
) -> Outcome {
    match parsed(destination) {
        Err(fault) => answer(
            s,
            line("Invalid destination callsign: "@ + callsign_message(fault)),
        ),
        Ok(destination) => match ssid_of(ssid) {
            None => answer(s, line("SSID must be a number from 0 to 15."@)),
            Some(ssid) => match s.radio {
                SessionRadio::Mercury => answer(
                    s,
                    line("CONNECT is unsupported with Mercury."@),
                ),
                SessionRadio::Agw { connect } => match parsed(
                    with_suffix(base_of(s.identity), ssid),
                ) {
                    Err(_) => abort(),
                    Ok(source) => if connect {
                        ask(
                            StateView::Finding { source, destination },
                            RequestView::FindEndpoint,
                        )
                    } else {
                        answer(s, line("CONNECT is disabled for TCP clients."@))
                    },
                },
            },
        },
    }
}

/// What a request to send a message comes to.
pub open spec fn send_asked(s: SessionView, recipient: Seq<char>) -> Outcome {
    if upper_text(recipient) == "ALL"@ {
        say(StateView::Subject { recipient: None }, "Subject: "@, RequestView::Line)
    } else {
        match parsed(recipient) {
            Ok(recipient) => say(
                StateView::Subject { recipient: Some(recipient) },
                "Subject: "@,
                RequestView::Line,
            ),
            Err(fault) => answer(s, line("Invalid recipient: "@ + callsign_message(fault))),
        }
    }
}

/// What a command comes to.
pub open spec fn commanded(s: SessionView, command: CommandView) -> Outcome {
    match command {
        CommandView::Empty => answer(s, Seq::empty()),
        CommandView::Help => answer(s, lines(help_lines(s.radio is Agw))),
        CommandView::Info => answer(s, info_text(s.bbs)),
        CommandView::List => ask(StateView::Listing, RequestView::ListVisible(s.identity)),
        CommandView::Sent => ask(StateView::ListingSent, RequestView::ListSent(s.identity)),
        CommandView::Logins => ask(
            StateView::ListingLogins,
            RequestView::RecentLogins(RECENT_LOGIN_LIMIT),
        ),
        CommandView::Heard => match s.radio {
            SessionRadio::Agw { .. } => ask(StateView::ListingHeard, RequestView::QueryHeard),
            SessionRadio::Mercury => answer(s, line("HEARD is unsupported with Mercury."@)),
        },
        CommandView::Files => ask(StateView::ListingFiles, RequestView::ListFiles),
        CommandView::Download(name) => ask(
            StateView::Resolving { name },
            RequestView::ResolveDownload(name),
        ),
        CommandView::DownloadUsage => answer(s, line("Usage: DOWNLOAD <file>"@)),
        CommandView::Read(id) => ask(
            StateView::Reading,
            RequestView::ReadMessage { viewer: s.identity, id },
        ),
        CommandView::ReadUsage => answer(s, line("Usage: READ <id>"@)),
        CommandView::Delete(id) => ask(
            StateView::Deleting,
            RequestView::DeleteMessage { caller: s.identity, id },
        ),
        CommandView::DeleteUsage => answer(s, line("Usage: DELETE <id>"@)),
        CommandView::InvalidId => answer(s, line("Message ID must be a positive number."@)),
        CommandView::Connect { destination, ssid } => connect_asked(s, destination, ssid),
        CommandView::ConnectUsage => answer(s, line("Usage: CONNECT <destination> <ssid>"@)),
        CommandView::Send(recipient) => send_asked(s, recipient),
        CommandView::SendUsage => answer(s, line("Usage: SEND <callsign|ALL>"@)),
        CommandView::Quit => say(StateView::Closed, line("Goodbye."@), RequestView::Close),
        CommandView::Unknown => answer(s, line("Unknown command. Type HELP for commands."@)),
    }
}

/// What a subject comes to.
pub open spec fn subject_given(
    s: SessionView,
    recipient: Option<Seq<char>>,
    typed: Seq<char>,
) -> Outcome {
    let subject = trimmed(typed);
    if subject.len() == 0 {
        answer(s, line("Subject cannot be empty."@))
    } else if subject.len() > MAX_SUBJECT_CHARS {
        answer(s, line("Subject cannot exceed 80 characters."@))
    } else {
        say(
            StateView::Body { recipient, subject, lines: Seq::empty() },
            line("Enter message text. End with a line containing only a period."@)
                + s.body_prompt,
            RequestView::Line,
        )
    }
}

/// What a line of a body comes to.
pub open spec fn body_given(
    s: SessionView,
    recipient: Option<Seq<char>>,
    subject: Seq<char>,
    before: Seq<Seq<char>>,
    typed: Seq<char>,
) -> Outcome {
    if typed == "."@ {
        let body = joined(before, '\n');
        if trimmed(body).len() == 0 {
            answer(s, line("Message body cannot be empty."@))
        } else {
            ask(
                StateView::Saving,
                RequestView::SaveMessage { sender: s.identity, recipient, subject, body },
            )
        }
    } else if joined(before.push(typed), '\n').len() > MAX_BODY_CHARS {
        answer(s, line("Message cannot exceed 4000 characters."@))
    } else {
        say(
            StateView::Body { recipient, subject, lines: before.push(typed) },
            s.body_prompt,
            RequestView::Line,
        )
    }
}

/// What a typed line comes to.
pub open spec fn line_typed(s: SessionView, typed: Seq<char>) -> Outcome {
    match s.state {
        StateView::Command => commanded(s, line_command(typed)),
        StateView::Subject { recipient } => subject_given(s, recipient, typed),
        StateView::Body { recipient, subject, lines } => body_given(
            s,
            recipient,
            subject,
            lines,
            typed,
        ),
        StateView::Bridged => if typed == "~."@ {
            ask(StateView::Leaving, RequestView::DisconnectRemote)
        } else {
            ask(StateView::Relaying, RequestView::SendRemote(encode_utf8(typed).push(CR)))
        },
        _ => abort(),
    }
}

/// What the end of the caller's input comes to.
pub open spec fn caller_gone(s: SessionView) -> Outcome {
    match s.state {
        StateView::Command => ask(StateView::Closed, RequestView::Close),
        StateView::Subject { .. } => answer(s, Seq::empty()),
        StateView::Body { .. } => answer(s, Seq::empty()),
        StateView::Bridged => ask(StateView::Dropping, RequestView::DropRemote),
        _ => abort(),
    }
}

/// What an event comes to. An event that the session does not wait for ends it.
pub open spec fn handled(s: SessionView, event: EventView) -> Outcome {
    match event {
        EventView::Started => if s.state is Start {
            answer(s, greeting(s))
        } else {
            abort()
        },
        EventView::Line(typed) => line_typed(s, typed),
        EventView::End => caller_gone(s),
        EventView::Zmodem(initial) => if s.state is Command {
            ask(StateView::Uploading, RequestView::ReceiveUpload(initial))
        } else {
            abort()
        },
        EventView::Summaries(list) => match s.state {
            StateView::Listing => answer(s, visible_text(list)),
            StateView::ListingSent => answer(s, sent_text(list)),
            _ => abort(),
        },
        EventView::Logins(list) => if s.state is ListingLogins {
            answer(s, logins_text(list))
        } else {
            abort()
        },
        EventView::Heard(list) => if s.state is ListingHeard {
            answer(s, heard_text(list))
        } else {
            abort()
        },
        EventView::HeardFailed(reason) => if s.state is ListingHeard {
            answer(s, line("Cannot list heard callsigns: "@ + reason))
        } else {
            abort()
        },
        EventView::Files(list) => if s.state is ListingFiles {
            answer(s, files_text(list))
        } else {
            abort()
        },
        EventView::Resolved(path) => match s.state {
            StateView::Resolving { name } => match path {
                Some(path) => say(
                    StateView::Sending,
                    line("Starting ZMODEM download."@),
                    RequestView::SendFile { path, name },
                ),
                None => answer(s, line("File not found."@)),
            },
            _ => abort(),
        },
        EventView::ResolveFailed => if s.state is Resolving {
            answer(s, line("Invalid file name."@))
        } else {
            abort()
        },
        EventView::Transferred(done) => match s.state {
            StateView::Sending => if done {
                ask(StateView::Command, RequestView::Input)
            } else {
                answer(s, line("Download failed."@))
            },
            StateView::Uploading => if done {
                ask(StateView::Acknowledging, RequestView::AwaitAcknowledgement)
            } else {
                answer(s, Seq::empty())
            },
            _ => abort(),
        },
        EventView::Acknowledged => if s.state is Acknowledging {
            ask(StateView::Command, RequestView::Input)
        } else {
            abort()
        },
        EventView::Found(message) => if s.state is Reading {
            match message {
                Some(message) => answer(s, message_text(message)),
                None => answer(s, line("Message not found."@)),
            }
        } else {
            abort()
        },
        EventView::Deleted(deleted) => if s.state is Deleting {
            if deleted {
                answer(s, line("Message deleted."@))
            } else {
                answer(s, line("Message not found or cannot be deleted."@))
            }
        } else {
            abort()
        },
        EventView::Saved(id) => if s.state is Saving {
            answer(s, line("Message #"@ + integer(id as int) + " saved."@))
        } else {
            abort()
        },
        EventView::Endpoint(there) => match s.state {
            StateView::Finding { source, destination } => if there {
                say(
                    StateView::Connecting,
                    line("Connecting "@ + source + " to "@ + destination + "..."@),
                    RequestView::Connect { source, destination },
                )
            } else {
                answer(s, line("Cannot connect: AGW is currently unavailable"@))
            },
            _ => abort(),
        },
        EventView::Connected => if s.state is Connecting {
            say(
                StateView::Bridged,
                line("Connected. Enter ~. on a line by itself to return here."@),
                RequestView::Bridge,
            )
        } else {
            abort()
        },
        EventView::ConnectFailed(reason) => if s.state is Connecting {
            answer(s, line("Connection failed: "@ + reason))
        } else {
            abort()
        },
        EventView::RemoteData(bytes) => if s.state is Bridged {
            Outcome { state: StateView::Bridged, output: bytes, request: RequestView::Bridge }
        } else {
            abort()
        },
        EventView::RemoteEnd => if s.state is Bridged {
            answer(s, line("Remote BBS disconnected."@))
        } else {
            abort()
        },
        EventView::RemoteFailed(reason) => if s.state is Bridged {
            answer(s, line("Remote BBS error: "@ + reason))
        } else {
            abort()
        },
        EventView::RemoteSent => if s.state is Relaying {
            ask(StateView::Bridged, RequestView::Bridge)
        } else {
            abort()
        },
        EventView::RemoteClosed => match s.state {
            StateView::Leaving => answer(s, line("Disconnected from remote BBS."@)),
            StateView::Dropping => ask(StateView::Closed, RequestView::Close),
            _ => abort(),
        },
        EventView::Failed => abort(),
    }
}

/// What an event has come to.
struct Turn {
    state: SessionState,
    output: Vec<u8>,
    request: SessionRequest,
}

impl View for Turn {
    type V = Outcome;

    closed spec fn view(&self) -> Outcome {
        Outcome { state: self.state@, output: self.output@, request: self.request@ }
    }
}

/// Text for the caller and a request.
fn said(state: SessionState, text: String, request: SessionRequest) -> (r: Turn)
    ensures
        r@ == say(state@, text@, request@),
{
    let output: Vec<u8> = vstd::slice::slice_to_vec(text.as_str().as_bytes());
    Turn { state, output, request }
}

/// A request, and nothing for the caller.
fn asked(state: SessionState, request: SessionRequest) -> (r: Turn)
    ensures
        r@ == ask(state@, request@),
{
    let turn: Turn = Turn { state, output: Vec::new(), request };
    assert(turn@.output =~= Seq::<u8>::empty());
    turn
}

/// The end of a session that cannot go on.
fn aborted() -> (r: Turn)
    ensures
        r@ == abort(),
{
    asked(SessionState::Closed, SessionRequest::Abort)
}

/// What is written to the caller, and what is asked for.
#[derive(Debug)]
pub struct Reply {
    pub output: Vec<u8>,
    pub request: SessionRequest,
}

/// A caller's session.
#[derive(Debug)]
pub struct Session {
    identity: Callsign,
    bbs_callsign: Callsign,
    options: SessionOptions,
    state: SessionState,
}

impl View for Session {
    type V = SessionView;

    closed spec fn view(&self) -> SessionView {
        SessionView {
            identity: self.identity@,
            bbs: self.bbs_callsign@,
            prompt: self.options.prompt@,
            body_prompt: self.options.body_prompt@,
            welcome: self.options.show_bbs_welcome,
            radio: self.options.radio,
            state: self.state@,
        }
    }
}

impl Session {
    /// A session that has not started.
    pub fn new(identity: Callsign, bbs_callsign: Callsign, options: SessionOptions) -> (r: Session)
        ensures
            r@ == (SessionView {
                identity: identity@,
                bbs: bbs_callsign@,
                prompt: options.prompt@,
                body_prompt: options.body_prompt@,
                welcome: options.show_bbs_welcome,
                radio: options.radio,
                state: StateView::Start,
            }),
            is_callsign(r@.identity),
    {
        // The text of a callsign is a normalized callsign.
        let _ = identity.as_str();
        Session { identity, bbs_callsign, options, state: SessionState::Start }
    }

    /// Text for the caller and the prompt.
    fn answered(&self, text: String) -> (r: Turn)
        ensures
            r@ == answer(self@, text@),
    {
        let mut text: String = text;
        text.append(self.options.prompt.as_str());
        said(SessionState::Command, text, SessionRequest::Input)
    }

    /// A line for the caller and the prompt.
    fn answered_line(&self, text: &str) -> (r: Turn)
        ensures
            r@ == answer(self@, line(text@)),
    {
        self.answered(one_line(text))
    }

    /// The prompt.
    fn answered_nothing(&self) -> (r: Turn)
        ensures
            r@ == answer(self@, Seq::empty()),
    {
        let text: String = String::new();
        assert(text@ =~= Seq::<char>::empty());
        self.answered(text)
    }

    /// The first words to a caller.
    fn greet(&self) -> (r: Turn)
        ensures
            r@ == answer(self@, greeting(self@)),
    {
        let mut text: String = String::new();
        if self.options.show_bbs_welcome {
            let mut welcome: String = "Welcome to ".to_owned();
            welcome.append(self.bbs_callsign.as_str());
            welcome.append(" amateur radio BBS.");
            push_line(&mut text, welcome.as_str());
            assert(text@ =~= line("Welcome to "@ + self@.bbs + " amateur radio BBS."@));
        }
        let mut name: String = "Welcome, ".to_owned();
        name.append(self.identity.as_str());
        name.append(".");
        push_line(&mut text, name.as_str());
        push_line(&mut text, "Type HELP for commands.");
        assert(text@ =~= greeting(self@));
        self.answered(text)
    }

    /// Connect to a remote board.
    fn connect_command(&self, destination: &str, ssid: &str) -> (r: Turn)
        ensures
            r@ == connect_asked(self@, destination@, ssid@),
    {
        let destination: Callsign = match Callsign::parse(destination) {
            Ok(destination) => destination,
            Err(error) => {
                return self.answered(
                    labelled_line("Invalid destination callsign: ", error.message().as_str()),
                );
            },
        };
        let ssid: u8 = match parse_number(ssid, 15) {
            Some(ssid) => ssid as u8,
            None => {
                return self.answered_line("SSID must be a number from 0 to 15.");
            },
        };
        let connect: bool = match self.options.radio {
            SessionRadio::Mercury => {
                return self.answered_line("CONNECT is unsupported with Mercury.");
            },
            SessionRadio::Agw { connect } => connect,
        };
        let source: Callsign = match self.identity.with_ssid(ssid) {
            Ok(source) => source,
            Err(_) => {
                return aborted();
            },
        };
        if !connect {
            return self.answered_line("CONNECT is disabled for TCP clients.");
        }
        asked(SessionState::Finding { source, destination }, SessionRequest::FindEndpoint)
    }

    /// Compose a message.
    fn send_command(&self, recipient: &str) -> (r: Turn)
        ensures
            r@ == send_asked(self@, recipient@),
    {
        let upper: String = to_upper(recipient);
        let recipient: Option<Callsign> = if same_text(upper.as_str(), "ALL") {
            None
        } else {
            match Callsign::parse(recipient) {
                Ok(callsign) => Some(callsign),
                Err(error) => {
                    return self.answered(
                        labelled_line("Invalid recipient: ", error.message().as_str()),
                    );
                },
            }
        };
        said(SessionState::Subject { recipient }, "Subject: ".to_owned(), SessionRequest::Line)
    }

    /// Carry out a command.
    fn on_command(&self, command: Command) -> (r: Turn)
        ensures
            r@ == commanded(self@, command@),
    {
        match command {
            Command::Empty => self.answered_nothing(),
            Command::Help => {
                let agw: bool = match self.options.radio {
                    SessionRadio::Agw { connect: _ } => true,
                    SessionRadio::Mercury => false,
                };
                self.answered(write_help(agw))
            },
            Command::Info => self.answered(write_info(self.bbs_callsign.as_str())),
            Command::List => asked(
                SessionState::Listing,
                SessionRequest::ListVisible(self.identity.clone()),
            ),
            Command::Sent => asked(
                SessionState::ListingSent,
                SessionRequest::ListSent(self.identity.clone()),
            ),
            Command::Logins => asked(
                SessionState::ListingLogins,
                SessionRequest::RecentLogins(RECENT_LOGIN_LIMIT),
            ),
            Command::Heard => match self.options.radio {
                SessionRadio::Agw { connect: _ } => asked(
                    SessionState::ListingHeard,
                    SessionRequest::QueryHeard,
                ),
                SessionRadio::Mercury => self.answered_line("HEARD is unsupported with Mercury."),
            },
            Command::Files => asked(SessionState::ListingFiles, SessionRequest::ListFiles),
            Command::Download(name) => {
                let copy: String = name.clone();
                asked(
                    SessionState::Resolving { name: copy },
                    SessionRequest::ResolveDownload(name),
                )
            },
            Command::DownloadUsage => self.answered_line("Usage: DOWNLOAD <file>"),
            Command::Read(id) => asked(
                SessionState::Reading,
                SessionRequest::ReadMessage { viewer: self.identity.clone(), id },
            ),
            Command::ReadUsage => self.answered_line("Usage: READ <id>"),
            Command::Delete(id) => asked(
                SessionState::Deleting,
                SessionRequest::DeleteMessage { caller: self.identity.clone(), id },
            ),
            Command::DeleteUsage => self.answered_line("Usage: DELETE <id>"),
            Command::InvalidId => self.answered_line("Message ID must be a positive number."),
            Command::Connect { destination, ssid } => self.connect_command(
                destination.as_str(),
                ssid.as_str(),
            ),
            Command::ConnectUsage => self.answered_line("Usage: CONNECT <destination> <ssid>"),
            Command::Send(recipient) => self.send_command(recipient.as_str()),
            Command::SendUsage => self.answered_line("Usage: SEND <callsign|ALL>"),
            Command::Quit => said(
                SessionState::Closed,
                one_line("Goodbye."),
                SessionRequest::Close,
            ),
            Command::Unknown => self.answered_line("Unknown command. Type HELP for commands."),
        }
    }

    /// The subject of a message has been typed.
    fn on_subject(&self, recipient: Option<Callsign>, typed: &str) -> (r: Turn)
        ensures
            r@ == subject_given(self@, optional_callsign(recipient), typed@),
    {
        let subject: String = trim(typed);
        let length: usize = chars_of(subject.as_str()).len();
        if length == 0 {
            return self.answered_line("Subject cannot be empty.");
        }
        if length > MAX_SUBJECT_CHARS {
            return self.answered_line("Subject cannot exceed 80 characters.");
        }
        let mut text: String = one_line(
            "Enter message text. End with a line containing only a period.",
        );
        text.append(self.options.body_prompt.as_str());
        let lines: Vec<String> = Vec::new();
        assert(texts(lines@) =~= Seq::<Seq<char>>::empty());
        said(SessionState::Body { recipient, subject, lines }, text, SessionRequest::Line)
    }

    /// A line of the body of a message has been typed.
    fn on_body(
        &self,
        recipient: Option<Callsign>,
        subject: String,
        lines: Vec<String>,
        typed: String,
    ) -> (r: Turn)
        ensures
            r@ == body_given(
                self@,
                optional_callsign(recipient),
                subject@,
                texts(lines@),
                typed@,
            ),
    {
        if same_text(typed.as_str(), ".") {
            let body: String = join(&lines, '\n');
            if chars_of(trim(body.as_str()).as_str()).len() == 0 {
                return self.answered_line("Message body cannot be empty.");
            }
            return asked(
                SessionState::Saving,
                SessionRequest::SaveMessage {
                    sender: self.identity.clone(),
                    recipient,
                    subject,
                    body,
                },
            );
        }
        let ghost before = texts(lines@);
        let mut lines: Vec<String> = lines;
        let ghost new = typed@;
        lines.push(typed);
        assert(texts(lines@) =~= before.push(new));
        if chars_of(join(&lines, '\n').as_str()).len() > MAX_BODY_CHARS {
            return self.answered_line("Message cannot exceed 4000 characters.");
        }
        said(
            SessionState::Body { recipient, subject, lines },
            self.options.body_prompt.clone(),
            SessionRequest::Line,
        )
    }

    /// A line has been typed.
    fn on_line(&self, state: SessionState, typed: String) -> (r: Turn)
        ensures
            r@ == line_typed(SessionView { state: state@, ..self@ }, typed@),
    {
        match state {
            SessionState::Command => self.on_command(parse_command(typed.as_str())),
            SessionState::Subject { recipient } => self.on_subject(recipient, typed.as_str()),
            SessionState::Body { recipient, subject, lines } => self.on_body(
                recipient,
                subject,
                lines,
                typed,
            ),
            SessionState::Bridged => {
                if same_text(typed.as_str(), "~.") {
                    return asked(SessionState::Leaving, SessionRequest::DisconnectRemote);
                }
                let mut bytes: Vec<u8> = vstd::slice::slice_to_vec(typed.as_str().as_bytes());
                bytes.push(CR);
                asked(SessionState::Relaying, SessionRequest::SendRemote(bytes))
            },
            _ => aborted(),
        }
    }

    /// The caller has gone.
    fn on_end(&self, state: SessionState) -> (r: Turn)
        ensures
            r@ == caller_gone(SessionView { state: state@, ..self@ }),
    {
        match state {
            SessionState::Command => asked(SessionState::Closed, SessionRequest::Close),
            SessionState::Subject { recipient: _ } => self.answered_nothing(),
            SessionState::Body { recipient: _, subject: _, lines: _ } => self.answered_nothing(),
            SessionState::Bridged => asked(SessionState::Dropping, SessionRequest::DropRemote),
            _ => aborted(),
        }
    }

    /// A listing of messages that was asked for is there.
    fn on_summaries(&self, state: SessionState, list: &Vec<MessageSummary>) -> (r: Turn)
        ensures
            r@ == handled(
                SessionView { state: state@, ..self@ },
                EventView::Summaries(summary_views(list@)),
            ),
    {
        match state {
            SessionState::Listing => self.answered(list_messages(list)),
            SessionState::ListingSent => self.answered(list_sent_messages(list)),
            _ => aborted(),
        }
    }

    /// A listing of logins that was asked for is there.
    fn on_logins(&self, state: SessionState, list: &Vec<LoginRecord>) -> (r: Turn)
        ensures
            r@ == handled(
                SessionView { state: state@, ..self@ },
                EventView::Logins(login_views(list@)),
            ),
    {
        match state {
            SessionState::ListingLogins => self.answered(list_recent_logins(list)),
            _ => aborted(),
        }
    }

    /// A listing of stations that was asked for is there.
    fn on_heard(&self, state: SessionState, list: &Vec<HeardStation>) -> (r: Turn)
        ensures
            r@ == handled(
                SessionView { state: state@, ..self@ },
                EventView::Heard(heard_views(list@)),
            ),
    {
        match state {
            SessionState::ListingHeard => self.answered(list_heard(list)),
            _ => aborted(),
        }
    }

    /// There is no listing of stations.
    fn on_heard_failed(&self, state: SessionState, reason: &str) -> (r: Turn)
        ensures
            r@ == handled(
                SessionView { state: state@, ..self@ },
                EventView::HeardFailed(reason@),
            ),
    {
        match state {
            SessionState::ListingHeard => self.answered(
                labelled_line("Cannot list heard callsigns: ", reason),
            ),
            _ => aborted(),
        }
    }

    /// A listing of files that was asked for is there.
    fn on_files(&self, state: SessionState, list: &Vec<AvailableFile>) -> (r: Turn)
        ensures
            r@ == handled(
                SessionView { state: state@, ..self@ },
                EventView::Files(file_views(list@)),
            ),
    {
        match state {
            SessionState::ListingFiles => self.answered(list_files(list)),
            _ => aborted(),
        }
    }

    /// A message has been looked for.
    fn on_found(&self, state: SessionState, found: &Option<Message>) -> (r: Turn)
        ensures
            r@ == handled(
                SessionView { state: state@, ..self@ },
                EventView::Found(optional_message(*found)),
            ),
    {
        match state {
            SessionState::Reading => match found {
                Some(message) => self.answered(write_message(message)),
                None => self.answered_line("Message not found."),
            },
            _ => aborted(),
        }
    }

    /// A message has been deleted, or could not be.
    fn on_deleted(&self, state: SessionState, deleted: bool) -> (r: Turn)
        ensures
            r@ == handled(SessionView { state: state@, ..self@ }, EventView::Deleted(deleted)),
    {
        match state {
            SessionState::Deleting => {
                if deleted {
                    self.answered_line("Message deleted.")
                } else {
                    self.answered_line("Message not found or cannot be deleted.")
                }
            },
            _ => aborted(),
        }
    }

    /// A message has been saved.
    fn on_saved(&self, state: SessionState, id: i64) -> (r: Turn)
        ensures
            r@ == handled(SessionView { state: state@, ..self@ }, EventView::Saved(id)),
    {
        match state {
            SessionState::Saving => {
                let mut text: String = "Message #".to_owned();
                push_integer(&mut text, id);
                text.append(" saved.");
                self.answered_line(text.as_str())
            },
            _ => aborted(),
        }
    }

    /// A transfer or its preparation has come to something.
    fn on_transfer(&self, state: SessionState, event: SessionEvent) -> (r: Turn)
        requires
            event is Zmodem || event is Resolved || event is ResolveFailed || event is Transferred
                || event is Acknowledged,
        ensures
            r@ == handled(SessionView { state: state@, ..self@ }, event@),
    {
        match (state, event) {
            (SessionState::Command, SessionEvent::Zmodem(initial)) => asked(
                SessionState::Uploading,
                SessionRequest::ReceiveUpload(initial),
            ),
            (SessionState::Resolving { name }, SessionEvent::Resolved(Some(path))) => said(
                SessionState::Sending,
                one_line("Starting ZMODEM download."),
                SessionRequest::SendFile { path, name },
            ),
            (SessionState::Resolving { name: _ }, SessionEvent::Resolved(None)) =>
                self.answered_line("File not found."),
            (SessionState::Resolving { name: _ }, SessionEvent::ResolveFailed) =>
                self.answered_line("Invalid file name."),
            (SessionState::Sending, SessionEvent::Transferred(done)) => {
                if done {
                    asked(SessionState::Command, SessionRequest::Input)
                } else {
                    self.answered_line("Download failed.")
                }
            },
            (SessionState::Uploading, SessionEvent::Transferred(done)) => {
                if done {
                    asked(SessionState::Acknowledging, SessionRequest::AwaitAcknowledgement)
                } else {
                    self.answered_nothing()
                }
            },
            (SessionState::Acknowledging, SessionEvent::Acknowledged) => asked(
                SessionState::Command,
                SessionRequest::Input,
            ),
            _ => aborted(),
        }
    }

    /// A connection to a remote board has come to something.
    fn on_remote(&self, state: SessionState, event: SessionEvent) -> (r: Turn)
        requires
            event is Endpoint || event is Connected || event is ConnectFailed || event
                is RemoteData || event is RemoteEnd || event is RemoteFailed || event is RemoteSent
                || event is RemoteClosed,
        ensures
            r@ == handled(SessionView { state: state@, ..self@ }, event@),
    {
        match (state, event) {
            (SessionState::Finding { source, destination }, SessionEvent::Endpoint(there)) => {
                if !there {
                    return self.answered_line("Cannot connect: AGW is currently unavailable");
                }
                let mut text: String = "Connecting ".to_owned();
                text.append(source.as_str());
                text.append(" to ");
                text.append(destination.as_str());
                text.append("...");
                said(
                    SessionState::Connecting,
                    one_line(text.as_str()),
                    SessionRequest::Connect { source, destination },
                )
            },
            (SessionState::Connecting, SessionEvent::Connected) => said(
                SessionState::Bridged,
                one_line("Connected. Enter ~. on a line by itself to return here."),
                SessionRequest::Bridge,
            ),
            (SessionState::Connecting, SessionEvent::ConnectFailed(reason)) => self.answered(
                labelled_line("Connection failed: ", reason.as_str()),
            ),
            (SessionState::Bridged, SessionEvent::RemoteData(bytes)) => Turn {
                state: SessionState::Bridged,
                output: bytes,
                request: SessionRequest::Bridge,
            },
            (SessionState::Bridged, SessionEvent::RemoteEnd) => self.answered_line(
                "Remote BBS disconnected.",
            ),
            (SessionState::Bridged, SessionEvent::RemoteFailed(reason)) => self.answered(
                labelled_line("Remote BBS error: ", reason.as_str()),
            ),
            (SessionState::Relaying, SessionEvent::RemoteSent) => asked(
                SessionState::Bridged,
                SessionRequest::Bridge,
            ),
            (SessionState::Leaving, SessionEvent::RemoteClosed) => self.answered_line(
                "Disconnected from remote BBS.",
            ),
            (SessionState::Dropping, SessionEvent::RemoteClosed) => asked(
                SessionState::Closed,
                SessionRequest::Close,
            ),
            _ => aborted(),
        }
    }

    /// React to an event.
    pub fn handle(&mut self, event: SessionEvent) -> (r: Reply)
        ensures
            ({
                let outcome = handled(old(self)@, event@);
                &&& final(self)@ == (SessionView { state: outcome.state, ..old(self)@ })
                &&& r.output@ == outcome.output
                &&& r.request@ == outcome.request
            }),
    {
        let ghost s = self@;
        let mut state: SessionState = SessionState::Closed;
        std::mem::swap(&mut state, &mut self.state);
        assert((SessionView { state: state@, ..self@ }) =~= s);
        let turn: Turn = match event {
            SessionEvent::Started => match state {
                SessionState::Start => self.greet(),
                _ => aborted(),
            },
            SessionEvent::Line(typed) => self.on_line(state, typed),
            SessionEvent::End => self.on_end(state),
            SessionEvent::Failed => aborted(),
            SessionEvent::Summaries(list) => self.on_summaries(state, &list),
            SessionEvent::Logins(list) => self.on_logins(state, &list),
            SessionEvent::Heard(list) => self.on_heard(state, &list),
            SessionEvent::HeardFailed(reason) => self.on_heard_failed(state, reason.as_str()),
            SessionEvent::Files(list) => self.on_files(state, &list),
            SessionEvent::Found(found) => self.on_found(state, &found),
            SessionEvent::Deleted(deleted) => self.on_deleted(state, deleted),
            SessionEvent::Saved(id) => self.on_saved(state, id),
            SessionEvent::Zmodem(_) => self.on_transfer(state, event),
            SessionEvent::Resolved(_) => self.on_transfer(state, event),
            SessionEvent::ResolveFailed => self.on_transfer(state, event),
            SessionEvent::Transferred(_) => self.on_transfer(state, event),
            SessionEvent::Acknowledged => self.on_transfer(state, event),
            SessionEvent::Endpoint(_) => self.on_remote(state, event),
            SessionEvent::Connected => self.on_remote(state, event),
            SessionEvent::ConnectFailed(_) => self.on_remote(state, event),
            SessionEvent::RemoteData(_) => self.on_remote(state, event),
            SessionEvent::RemoteEnd => self.on_remote(state, event),
            SessionEvent::RemoteFailed(_) => self.on_remote(state, event),
            SessionEvent::RemoteSent => self.on_remote(state, event),
            SessionEvent::RemoteClosed => self.on_remote(state, event),
        };
        self.state = turn.state;
        Reply { output: turn.output, request: turn.request }
    }
}

/// What has arrived for a session, if it waits for input and there is some.
pub open spec fn arrived(state: StateView, t: Reading) -> (Reading, Option<EventView>) {
    match state {
        StateView::Command => {
            let (left, result) = input_read(t);
            (
                left,
                match result {
                    Ok(Step::Pending) => None,
                    Ok(Step::Ready(Some(InputView::Line(typed)))) => Some(
                        EventView::Line(typed),
                    ),
                    Ok(Step::Ready(Some(InputView::Zmodem(initial)))) => Some(
                        EventView::Zmodem(initial),
                    ),
                    Ok(Step::Ready(None)) => Some(EventView::End),
                    Err(_) => Some(EventView::Failed),
                },
            )
        },
        StateView::Subject { .. } => line_arrived(t),
        StateView::Body { .. } => line_arrived(t),
        StateView::Bridged => line_arrived(t),
        _ => (t, None),
    }
}

/// What has arrived for a session that waits for a line.
pub open spec fn line_arrived(t: Reading) -> (Reading, Option<EventView>) {
    let (left, result) = line_read(t);
    (
        left,
        match result {
            Ok(Step::Pending) => None,
            Ok(Step::Ready(Some(typed))) => Some(EventView::Line(typed)),
            Ok(Step::Ready(None)) => Some(EventView::End),
            Err(_) => Some(EventView::Failed),
        },
    )
}

/// An event, if there is one, as a mathematical value.
pub open spec fn optional_event(event: Option<SessionEvent>) -> Option<EventView> {
    match event {
        Some(event) => Some(event@),
        None => None,
    }
}

/// Read a line for a session.
fn read_typed(terminal: &mut Terminal) -> (r: Option<SessionEvent>)
    ensures
        (final(terminal).reading(), optional_event(r)) == line_arrived(old(terminal).reading()),
        final(terminal).output() == old(terminal).output(),
        final(terminal).closed() == old(terminal).closed(),
{
    match terminal.read_line() {
        Ok(Step::Pending) => None,
        Ok(Step::Ready(Some(typed))) => Some(SessionEvent::Line(typed)),
        Ok(Step::Ready(None)) => Some(SessionEvent::End),
        Err(_) => Some(SessionEvent::Failed),
    }
}

/// Read what a session waits for: a command or an upload, or a line. There is no
/// event where the session waits for something else, or more has to arrive.
pub fn read_event(session: &Session, terminal: &mut Terminal) -> (r: Option<SessionEvent>)
    ensures
        (final(terminal).reading(), optional_event(r)) == arrived(
            session@.state,
            old(terminal).reading(),
        ),
        final(terminal).output() == old(terminal).output(),
        final(terminal).closed() == old(terminal).closed(),
{
    match &session.state {
        SessionState::Command => match terminal.read_input() {
            Ok(Step::Pending) => None,
            Ok(Step::Ready(Some(TerminalInput::Line(typed)))) => Some(SessionEvent::Line(typed)),
            Ok(Step::Ready(Some(TerminalInput::Zmodem(initial)))) => Some(
                SessionEvent::Zmodem(initial),
            ),
            Ok(Step::Ready(None)) => Some(SessionEvent::End),
            Err(_) => Some(SessionEvent::Failed),
        },
        SessionState::Subject { recipient: _ } => read_typed(terminal),
        SessionState::Body { recipient: _, subject: _, lines: _ } => read_typed(terminal),
        SessionState::Bridged => read_typed(terminal),
        _ => None,
    }
}

/// Take a session one event further: write to the terminal what the event comes
/// to, close the terminal where the session is over, and say what is asked for.
pub fn run_session(
    session: &mut Session,
    terminal: &mut Terminal,
    event: SessionEvent,
) -> (r: SessionRequest)
    ensures
        ({
            let outcome = handled(old(session)@, event@);
            &&& final(session)@ == (SessionView { state: outcome.state, ..old(session)@ })
            &&& final(terminal).reading() == old(terminal).reading()
            &&& final(terminal).output() == old(terminal).output() + outcome.output
            &&& final(terminal).closed() == (old(terminal).closed() || outcome.request is Close)
            &&& r@ == outcome.request
        }),
{
    let reply: Reply = session.handle(event);
    terminal.write_bytes(reply.output.as_slice());
    match &reply.request {
        SessionRequest::Close => {
            terminal.shutdown();
        },
        _ => {},
    }
    reply.request
}

/// How to reach a remote board.
#[derive(Clone, Copy, Debug, Eq, PartialEq, Structural)]
pub enum Route {
    /// A direct connection.
    Direct,
    /// By way of this board, as a hop that has been seen.
    ViaBoard,
}

/// The source callsigns that have been registered on one AGW connection.
#[derive(Debug)]
pub struct AgwEndpoint {
    registered: Vec<Callsign>,
    connect_via: bool,
}

/// Callsigns as mathematical values.
pub open spec fn callsign_views(list: Seq<Callsign>) -> Seq<Seq<char>> {
    Seq::new(list.len(), |i: int| list[i]@)
}

/// A source has to be registered before it is used.
pub open spec fn needs_registration(registered: Set<Seq<char>>, source: Seq<char>) -> bool {
    !registered.contains(source)
}

/// The registered callsigns once a source is used.
pub open spec fn source_used(registered: Set<Seq<char>>, source: Seq<char>) -> Set<Seq<char>> {
    registered.insert(source)
}

/// The registered callsigns once the registration of a source has failed.
pub open spec fn source_refused(registered: Set<Seq<char>>, source: Seq<char>) -> Set<Seq<char>> {
    registered.remove(source)
}

impl View for AgwEndpoint {
    type V = Set<Seq<char>>;

    closed spec fn view(&self) -> Set<Seq<char>> {
        callsign_views(self.registered@).to_set()
    }
}

impl AgwEndpoint {
    #[verifier::type_invariant]
    spec fn well_formed(&self) -> bool {
        callsign_views(self.registered@).no_duplicates()
    }

    /// Connections go by way of this board.
    pub closed spec fn connect_via(&self) -> bool {
        self.connect_via
    }

    /// A connection on which nothing has been registered.
    pub fn new(connect_via: bool) -> (r: AgwEndpoint)
        ensures
            r@ == Set::<Seq<char>>::empty(),
            r.connect_via() == connect_via,
    {
        let endpoint: AgwEndpoint = AgwEndpoint { registered: Vec::new(), connect_via };
        assert(endpoint@ =~= Set::<Seq<char>>::empty());
        endpoint
    }

    /// Index of a callsign among those that are registered, or their number.
    fn find(&self, source: &Callsign) -> (r: usize)
        ensures
            r <= self.registered@.len(),
            r < self.registered@.len() ==> self.registered@[r as int]@ == source@,
            r == self.registered@.len() ==> !self@.contains(source@),
            r < self.registered@.len() ==> self@.contains(source@),
    {
        let mut i: usize = 0;
        let ghost all = callsign_views(self.registered@);
        while i < self.registered.len()
            invariant
                i <= self.registered@.len(),
                all == callsign_views(self.registered@),
                forall|x: int| 0 <= x < i ==> #[trigger] all[x] != source@,
            decreases self.registered@.len() - i,
        {
            if same_text(self.registered[i].as_str(), source.as_str()) {
                assert(all[i as int] == source@);
                assert(all.contains(source@));
                return i;
            }
            assert(all[i as int] != source@);
            i = i + 1;
        }
        assert(!all.contains(source@));
        i
    }

    /// A source callsign is about to be used: whether it has to be registered
    /// first. It counts as registered from now on.
    pub fn connect(&mut self, source: &Callsign) -> (r: bool)
        ensures
            r == !old(self)@.contains(source@),
            final(self)@ == old(self)@.insert(source@),
            r == needs_registration(old(self)@, source@),
            final(self)@ == source_used(old(self)@, source@),
            final(self).connect_via() == old(self).connect_via(),
    {
        proof {
            use_type_invariant(&*self);
        }
        let k: usize = self.find(source);
        let ghost before = callsign_views(self.registered@);
        if k < self.registered.len() {
            assert(self@.insert(source@) =~= self@);
            return false;
        }
        let copy: Callsign = source.clone();
        let mut list: Vec<Callsign> = Vec::new();
        std::mem::swap(&mut list, &mut self.registered);
        list.push(copy);
        proof {
            let after = callsign_views(list@);
            assert(after =~= before.push(source@));
            assert(!before.contains(source@));
            assert(after.no_duplicates());
            assert(after.to_set() =~= before.to_set().insert(source@)) by {
                assert forall|x: Seq<char>| after.contains(x) <==> (before.contains(x) || x
                    == source@) by {
                    if before.contains(x) {
                        let i = choose|i: int| 0 <= i < before.len() && before[i] == x;
                        assert(after[i] == x);
                    }
                    if x == source@ {
                        assert(after[before.len() as int] == x);
                    }
                }
            }
        }
        self.registered = list;
        true
    }

    /// The registration of a source callsign has failed: it is not registered.
    pub fn registration_failed(&mut self, source: &Callsign)
        ensures
            final(self)@ == old(self)@.remove(source@),
            final(self)@ == source_refused(old(self)@, source@),
            final(self).connect_via() == old(self).connect_via(),
    {
        proof {
            use_type_invariant(&*self);
        }
        let k: usize = self.find(source);
        let ghost before = callsign_views(self.registered@);
        if k == self.registered.len() {
            assert(self@.remove(source@) =~= self@);
            return ;
        }
        let mut list: Vec<Callsign> = Vec::new();
        std::mem::swap(&mut list, &mut self.registered);
        let _ = list.remove(k);
        proof {
            let after = callsign_views(list@);
            assert(after =~= before.remove(k as int));
            assert(after.no_duplicates()) by {
                assert forall|i: int, j: int|
                    0 <= i < after.len() && 0 <= j < after.len() && i != j implies after[i]
                    != after[j] by {
                    let x = if i < k {
                        i
                    } else {
                        i + 1
                    };
                    let y = if j < k {
                        j
                    } else {
                        j + 1
                    };
                    assert(before[x] != before[y]);
                }
            }
            assert(after.to_set() =~= before.to_set().remove(source@)) by {
                assert forall|x: Seq<char>| after.contains(x) <==> (before.contains(x) && x
                    != source@) by {
                    if before.contains(x) && x != source@ {
                        let i = choose|i: int| 0 <= i < before.len() && before[i] == x;
                        assert(after[if i < k {
                            i
                        } else {
                            i - 1
                        }] == x);
                    }
                    if after.contains(x) {
                        let j = choose|j: int| 0 <= j < after.len() && after[j] == x;
                        let i = if j < k {
                            j
                        } else {
                            j + 1
                        };
                        assert(before[i] == x);
                        assert(before[k as int] == source@);
                        assert(i != k);
                    }
                }
            }
        }
        self.registered = list;
    }

    /// How to reach a remote board.
    pub fn route(&self) -> (r: Route)
        ensures
            r == (if self.connect_via() {
                Route::ViaBoard
            } else {
                Route::Direct
            }),
    {
        if self.connect_via {
            Route::ViaBoard
        } else {
            Route::Direct
        }
    }
}

/// A request to connect from a source callsign, and whether AGW registers the
/// callsign if it is asked to.
#[verifier::ext_equal]
pub struct Attempt {
    pub source: Seq<char>,
    pub succeeds: bool,
}

/// The registered callsigns behind a request to connect: `connect`, and
/// `registration_failed` where a registration was needed and has failed.
pub open spec fn after_attempt(registered: Set<Seq<char>>, attempt: Attempt) -> Set<Seq<char>> {
    let used = source_used(registered, attempt.source);
    if !needs_registration(registered, attempt.source) || attempt.succeeds {
        used
    } else {
        source_refused(used, attempt.source)
    }
}

/// The registered callsigns of a new endpoint behind some requests to connect.
pub open spec fn after_attempts(attempts: Seq<Attempt>) -> Set<Seq<char>>
    decreases attempts.len(),
{
    if attempts.len() == 0 {
        Set::empty()
    } else {
        after_attempt(after_attempts(attempts.drop_last()), attempts.last())
    }
}

/// The request asks AGW to register its source.
pub open spec fn registers(attempts: Seq<Attempt>, i: int) -> bool {
    needs_registration(after_attempts(attempts.take(i)), attempts[i].source)
}

/// The request asks AGW to register its source, and AGW does.
pub open spec fn has_registered(attempts: Seq<Attempt>, i: int) -> bool {
    registers(attempts, i) && attempts[i].succeeds
}

proof fn lemma_registered_by_an_attempt(attempts: Seq<Attempt>, n: int, source: Seq<char>)
    requires
        0 <= n <= attempts.len(),
    ensures
        after_attempts(attempts.take(n)).contains(source) <==> exists|j: int|
            0 <= j < n && #[trigger] has_registered(attempts, j) && attempts[j].source == source,
    decreases n,
{
    if n > 0 {
        let last = attempts[n - 1];
        let before = after_attempts(attempts.take(n - 1));
        lemma_registered_by_an_attempt(attempts, n - 1, source);
        assert(attempts.take(n).drop_last() =~= attempts.take(n - 1));
        assert(attempts.take(n).last() == last);
        assert(after_attempts(attempts.take(n)) == after_attempt(before, last));
        if after_attempts(attempts.take(n)).contains(source) {
            if !before.contains(source) {
                assert(has_registered(attempts, n - 1));
            }
        }
    }
}

/// On one connection to AGW a source is registered where no earlier registration
/// of it has succeeded, and only there. A registration that has failed is tried
/// again by the next request with that source. Behind a request its source is
/// registered, unless the registration has just failed.
pub proof fn law_sources_are_registered_once(attempts: Seq<Attempt>, i: int, next: int)
    requires
        0 <= i < attempts.len(),
    ensures
        registers(attempts, i) <==> !exists|j: int|
            0 <= j < i && #[trigger] has_registered(attempts, j) && attempts[j].source
                == attempts[i].source,
        i < next < attempts.len() && attempts[next].source == attempts[i].source && (forall|j: int|
            i < j < next ==> (#[trigger] attempts[j]).source != attempts[i].source) ==> registers(
            attempts,
            next,
        ) == (registers(attempts, i) && !attempts[i].succeeds),
        after_attempts(attempts.take(i + 1)).contains(attempts[i].source) <==> (registers(
            attempts,
            i,
        ) ==> attempts[i].succeeds),
{
    let source = attempts[i].source;
    lemma_registered_by_an_attempt(attempts, i, source);
    if i < next < attempts.len() && attempts[next].source == source && (forall|j: int|
        i < j < next ==> (#[trigger] attempts[j]).source != source) {
        lemma_registered_by_an_attempt(attempts, next, source);
        if registers(attempts, i) && attempts[i].succeeds {
            assert(has_registered(attempts, i));
        }
    }
    assert(attempts.take(i + 1).drop_last() =~= attempts.take(i));
    assert(attempts.take(i + 1).last() == attempts[i]);
}

/// The caller may connect to other boards.
pub open spec fn may_connect(s: SessionView) -> bool {
    s.radio == SessionRadio::Agw { connect: true }
}

/// What holds of a session at all times.
pub open spec fn is_sound(s: SessionView) -> bool {
    &&& is_callsign(s.identity)
    &&& match s.state {
        StateView::Subject { recipient } => recipient matches Some(to) ==> is_callsign(to),
        StateView::Body { recipient, subject, lines } => {
            &&& recipient matches Some(to) ==> is_callsign(to)
            &&& 1 <= subject.len() <= MAX_SUBJECT_CHARS
            &&& joined(lines, '\n').len() <= MAX_BODY_CHARS
        },
        StateView::Finding { source, destination } => {
            &&& may_connect(s)
            &&& is_callsign(source)
            &&& is_callsign(destination)
            &&& base_of(source) == base_of(s.identity)
        },
        StateView::ListingHeard => s.radio is Agw,
        StateView::Connecting => may_connect(s),
        StateView::Bridged => may_connect(s),
        StateView::Relaying => may_connect(s),
        StateView::Leaving => may_connect(s),
        StateView::Dropping => may_connect(s),
        _ => true,
    }
}

/// A request that a session may make: what it asks of the store it asks under
/// the caller's identity, what it saves is within the limits, and it uses the
/// radio as far as it is allowed to.
pub open spec fn is_rightful(s: SessionView, request: RequestView) -> bool {
    match request {
        RequestView::ListVisible(viewer) => viewer == s.identity,
        RequestView::ListSent(sender) => sender == s.identity,
        RequestView::RecentLogins(limit) => limit == RECENT_LOGIN_LIMIT,
        RequestView::ReadMessage { viewer, id } => viewer == s.identity && id > 0,
        RequestView::DeleteMessage { caller, id } => caller == s.identity && id > 0,
        RequestView::SaveMessage { sender, recipient, subject, body } => {
            &&& sender == s.identity
            &&& recipient matches Some(to) ==> is_callsign(to)
            &&& 1 <= subject.len() <= MAX_SUBJECT_CHARS
            &&& body.len() <= MAX_BODY_CHARS
            &&& trimmed(body).len() > 0
        },
        RequestView::QueryHeard => s.radio is Agw,
        RequestView::FindEndpoint => may_connect(s),
        RequestView::Connect { source, destination } => {
            &&& may_connect(s)
            &&& is_callsign(source)
            &&& is_callsign(destination)
            &&& base_of(source) == base_of(s.identity)
        },
        RequestView::Bridge => may_connect(s),
        RequestView::SendRemote(_) => may_connect(s),
        RequestView::DisconnectRemote => may_connect(s),
        RequestView::DropRemote => may_connect(s),
        _ => true,
    }
}

proof fn lemma_connect_is_rightful(s: SessionView, destination: Seq<char>, ssid: Seq<char>)
    requires
        is_callsign(s.identity),
    ensures
        ({
            let outcome = connect_asked(s, destination, ssid);
            &&& is_sound(SessionView { state: outcome.state, ..s })
            &&& is_rightful(s, outcome.request)
        }),
{
    crate::callsign::law_parsed_is_callsign(destination);
    if let Some(k) = ssid_of(ssid) {
        law_ssid_keeps_base(s.identity, k);
        crate::callsign::law_parsed_is_callsign(with_suffix(base_of(s.identity), k));
    }
}

proof fn lemma_command_is_rightful(s: SessionView, command: CommandView)
    requires
        is_callsign(s.identity),
        command matches CommandView::Read(id) ==> id > 0,
        command matches CommandView::Delete(id) ==> id > 0,
    ensures
        ({
            let outcome = commanded(s, command);
            &&& is_sound(SessionView { state: outcome.state, ..s })
            &&& is_rightful(s, outcome.request)
        }),
{
    if let CommandView::Connect { destination, ssid } = command {
        lemma_connect_is_rightful(s, destination, ssid);
    }
    if let CommandView::Send(recipient) = command {
        crate::callsign::law_parsed_is_callsign(recipient);
    }
}

proof fn lemma_line_is_rightful(s: SessionView, typed: Seq<char>)
    requires
        is_sound(s),
    ensures
        ({
            let outcome = line_typed(s, typed);
            &&& is_sound(SessionView { state: outcome.state, ..s })
            &&& is_rightful(s, outcome.request)
        }),
{
    if s.state is Command {
        lemma_command_is_rightful(s, line_command(typed));
    }
}

/// Whatever a caller types and whatever happens, a session keeps to the caller's
/// identity, to the limits on messages and to what the caller may do over the
/// radio.
#[verifier::spinoff_prover]
pub proof fn law_session_keeps_to_its_rights(s: SessionView, event: EventView)
    requires
        is_sound(s),
    ensures
        ({
            let outcome = handled(s, event);
            &&& is_sound(SessionView { state: outcome.state, ..s })
            &&& is_rightful(s, outcome.request)
        }),
{
    if let EventView::Line(typed) = event {
        lemma_line_is_rightful(s, typed);
    }
}

/// A session behind some events.
pub open spec fn after_events(s: SessionView, events: Seq<EventView>) -> SessionView
    decreases events.len(),
{
    if events.len() == 0 {
        s
    } else {
        let before = after_events(s, events.drop_last());
        SessionView { state: handled(before, events.last()).state, ..before }
    }
}

/// From its start on, whatever happens and in whatever order, a session is the
/// caller's own and makes no request that it may not make.
pub proof fn law_every_request_is_rightful(
    s: SessionView,
    events: Seq<EventView>,
    next: EventView,
)
    requires
        is_callsign(s.identity),
        s.state is Start,
    ensures
        ({
            let now = after_events(s, events);
            &&& is_sound(now)
            &&& now.identity == s.identity
            &&& now.radio == s.radio
            &&& is_rightful(s, handled(now, next).request)
        }),
    decreases events.len(),
{
    if events.len() > 0 {
        let front = events.drop_last();
        law_every_request_is_rightful(s, front, events.last());
        law_session_keeps_to_its_rights(after_events(s, front), events.last());
    }
    law_session_keeps_to_its_rights(after_events(s, events), next);
}

/// After a successful transfer the board stays silent: it writes neither text
/// nor a prompt before the next command.
pub proof fn law_successful_transfers_are_silent(s: SessionView)
    ensures
        s.state is Sending ==> handled(s, EventView::Transferred(true)) == ask(
            StateView::Command,
            RequestView::Input,
        ),
        s.state is Uploading ==> handled(s, EventView::Transferred(true)) == ask(
            StateView::Acknowledging,
            RequestView::AwaitAcknowledgement,
        ),
        s.state is Acknowledging ==> handled(s, EventView::Acknowledged) == ask(
            StateView::Command,
            RequestView::Input,
        ),
{
}

/// Every other return to the command level ends in the prompt.
pub proof fn law_answers_end_in_the_prompt(s: SessionView, event: EventView)
    requires
        handled(s, event).request is Input,
        event != EventView::Transferred(true),
        !(event is Acknowledged),
    ensures
        handled(s, event).state is Command,
        exists|text: Seq<char>|
            handled(s, event).output == encode_utf8(#[trigger] (text + s.prompt)),
{
}

/// A session ends in good order when the caller takes leave or has gone, and only
/// then.
pub proof fn law_sessions_end_on_leave(s: SessionView, event: EventView)
    ensures
        handled(s, event).request is Close <==> {
            ||| s.state is Command && event is End
            ||| s.state is Command && (event matches EventView::Line(typed) && line_command(typed)
                is Quit)
            ||| s.state is Dropping && event is RemoteClosed
        },
        handled(s, event).request is Close ==> handled(s, event).state is Closed,
{
}

/// A session that is over asks for nothing and writes nothing.
pub proof fn law_closed_sessions_are_silent(s: SessionView, event: EventView)
    requires
        s.state is Closed,
    ensures
        handled(s, event) == abort(),
{
}

/// While a caller is connected to a remote board, every line but `~.` goes there
/// with a CR behind it, and what comes from there is written as it is.
pub proof fn law_bridge_is_transparent(s: SessionView, typed: Seq<char>, bytes: Seq<u8>)
    requires
        s.state is Bridged,
    ensures
        typed != "~."@ ==> handled(s, EventView::Line(typed)) == ask(
            StateView::Relaying,
            RequestView::SendRemote(encode_utf8(typed).push(CR)),
        ),
        handled(s, EventView::Line("~."@)) == ask(
            StateView::Leaving,
            RequestView::DisconnectRemote,
        ),
        handled(s, EventView::RemoteData(bytes)) == (Outcome {
            state: StateView::Bridged,
            output: bytes,
            request: RequestView::Bridge,
        }),
{
}

/// The commands that a Mercury modem cannot serve are refused, and are not among
/// those that HELP lists: HEARD, and CONNECT where its arguments are in order.
pub proof fn law_mercury_refuses_agw_commands(
    s: SessionView,
    destination: Seq<char>,
    ssid: Seq<char>,
    i: int,
)
    requires
        s.radio is Mercury,
        0 <= i < help_lines(false).len(),
    ensures
        commanded(s, CommandView::Heard) == answer(
            s,
            line("HEARD is unsupported with Mercury."@),
        ),
        parsed(destination) is Ok && ssid_of(ssid) is Some ==> commanded(
            s,
            CommandView::Connect { destination, ssid },
        ) == answer(s, line("CONNECT is unsupported with Mercury."@)),
        commanded(s, CommandView::Help) == answer(s, lines(help_lines(false))),
        help_lines(false)[i] != "  HEARD                List callsigns recently heard by the AGW endpoint"@,
        help_lines(false)[i] != "  CONNECT <call> <ssid> Connect to a remote BBS over AX.25"@,
{
    reveal_strlit("Commands:");
    reveal_strlit("  LIST                 List public and your private messages");
    reveal_strlit("  SENT                 List messages you sent");
    reveal_strlit("  LOGINS               List the 10 most recent logins");
    reveal_strlit("  HEARD                List callsigns recently heard by the AGW endpoint");
    reveal_strlit("  FILES                List files available for download");
    reveal_strlit("  DOWNLOAD <file>      Download a file using ZMODEM");
    reveal_strlit("  CONNECT <call> <ssid> Connect to a remote BBS over AX.25");
    reveal_strlit("  READ <id>            Read a visible message");
    reveal_strlit("  DELETE <id>          Delete mail you sent or received");
    reveal_strlit("  SEND <callsign|ALL>  Send private mail or post publicly");
    reveal_strlit("  INFO                 Show BBS information");
    reveal_strlit("  HELP                 Show this help");
    reveal_strlit("  QUIT, BYE, EXIT      Disconnect");
    let text = help_lines(false)[i];
    let heard = "  HEARD                List callsigns recently heard by the AGW endpoint"@;
    let connect = "  CONNECT <call> <ssid> Connect to a remote BBS over AX.25"@;
    assert(heard[3] == 'E' && heard[4] == 'A' && heard[2] == 'H');
    assert(connect[2] == 'C');
    assert(text[2] != 'C');
    assert(text[2] != 'H' || text[4] != 'A');
}

/// A session behind some typed lines.
pub open spec fn after_lines(s: SessionView, typed: Seq<Seq<char>>) -> SessionView
    decreases typed.len(),
{
    if typed.len() == 0 {
        s
    } else {
        let before = after_lines(s, typed.drop_last());
        SessionView { state: handled(before, EventView::Line(typed.last())).state, ..before }
    }
}

proof fn lemma_joined_grows(list: Seq<Seq<char>>)
    requires
        list.len() > 0,
    ensures
        joined(list.drop_last(), '\n').len() <= joined(list, '\n').len(),
{
}

proof fn lemma_lines_are_collected(
    s: SessionView,
    recipient: Option<Seq<char>>,
    subject: Seq<char>,
    typed: Seq<Seq<char>>,
)
    requires
        s.state == (StateView::Body { recipient, subject, lines: Seq::empty() }),
        forall|i: int| 0 <= i < typed.len() ==> #[trigger] typed[i] != "."@,
        joined(typed, '\n').len() <= MAX_BODY_CHARS,
    ensures
        after_lines(s, typed) == (SessionView {
            state: StateView::Body { recipient, subject, lines: typed },
            ..s
        }),
    decreases typed.len(),
{
    if typed.len() == 0 {
        assert(typed =~= Seq::empty());
    } else {
        let front = typed.drop_last();
        lemma_joined_grows(typed);
        assert forall|i: int| 0 <= i < front.len() implies #[trigger] front[i] != "."@ by {
            assert(front[i] == typed[i]);
        }
        lemma_lines_are_collected(s, recipient, subject, front);
        assert(front.push(typed.last()) =~= typed);
        assert(typed[typed.len() - 1] != "."@);
    }
}

/// A message that is composed is the lines that were typed, joined by line feeds:
/// it is saved as soon as a period stands alone, as long as it is not blank and
/// within the limit.
pub proof fn law_composed_message_is_what_was_typed(
    s: SessionView,
    recipient: Option<Seq<char>>,
    subject: Seq<char>,
    typed: Seq<Seq<char>>,
)
    requires
        s.state == (StateView::Body { recipient, subject, lines: Seq::empty() }),
        forall|i: int| 0 <= i < typed.len() ==> #[trigger] typed[i] != "."@,
        joined(typed, '\n').len() <= MAX_BODY_CHARS,
        trimmed(joined(typed, '\n')).len() > 0,
    ensures
        handled(after_lines(s, typed), EventView::Line("."@)) == ask(
            StateView::Saving,
            RequestView::SaveMessage {
                sender: s.identity,
                recipient,
                subject,
                body: joined(typed, '\n'),
            },
        ),
{
    lemma_lines_are_collected(s, recipient, subject, typed);
}

/// What a read gives back of a write: a message that a caller has composed line
/// by line is shown to whoever may see it, line by line as it was typed, under
/// the caller's callsign.
pub proof fn law_mail_is_read_as_it_was_typed(
    s: SessionView,
    recipient: Option<Seq<char>>,
    subject: Seq<char>,
    typed: Seq<Seq<char>>,
    rows: Seq<MessageRowView>,
    at: Seq<char>,
    reader: SessionView,
)
    requires
        is_sound(s),
        s.state == (StateView::Body { recipient, subject, lines: Seq::empty() }),
        typed.len() > 0,
        forall|i: int| 0 <= i < typed.len() ==> #[trigger] typed[i] != "."@,
        forall|i: int| 0 <= i < typed.len() ==> !holds_terminator(#[trigger] typed[i]),
        joined(typed, '\n').len() <= MAX_BODY_CHARS,
        trimmed(joined(typed, '\n')).len() > 0,
        messages_ascend(rows),
        next_message_id(rows) is Some,
        reader.state is Reading,
        recipient matches Some(to) ==> base_of(to) == base_of(reader.identity),
    ensures
        ({
            let id = next_message_id(rows)->0;
            let body = joined(typed, '\n');
            let message = MessageView {
                id,
                sender: s.identity,
                recipient,
                subject,
                body,
                created_at: at,
            };
            let after = rows.push(new_message(id, s.identity, recipient, subject, body, at));
            &&& handled(after_lines(s, typed), EventView::Line("."@)).request
                == (RequestView::SaveMessage { sender: s.identity, recipient, subject, body })
            &&& readable(after, base_of(reader.identity), id) == Ok::<
                Option<MessageView>,
                StoreFault,
            >(Some(message))
            &&& handled(reader, EventView::Found(Some(message))) == answer(
                reader,
                message_head(message) + lines(typed),
            )
        }),
{
    law_composed_message_is_what_was_typed(s, recipient, subject, typed);
    let body = joined(typed, '\n');
    let id = next_message_id(rows)->0;
    let message = MessageView {
        id,
        sender: s.identity,
        recipient,
        subject,
        body,
        created_at: at,
    };
    law_saved_message_reads_back(rows, s.identity, recipient, subject, body, at, reader.identity);
    law_body_lines_read_back(message, typed);
}

} // verus!
