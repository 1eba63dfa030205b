//! What the commands of a caller do, from what is typed to what is written.
//!
//! Nothing here is executed: the laws follow a dialogue over several events of a
//! session, and say what the caller gets for what the caller has typed.

use vstd::prelude::*;
use vstd::string::*;
use vstd::utf8::*;

use crate::callsign::{
    base_of, callsign_message, is_callsign, law_ssid_keeps_base, parsed, ssid_attached, Callsign,
    CallsignFault,
};
use crate::command::{law_commands, line_command, CommandView};
use crate::files::FileView;
use crate::report::{
    files_text, heard_text, help_lines, info_text, lines, logins_text, message_text, sent_text,
    visible_line, visible_text, HeardView,
};
use crate::session::{
    arrived, commanded, handled, optional_event, EventView, Outcome, RequestView, SessionEvent,
    SessionRadio, SessionRequest, SessionState, SessionView, StateView,
};
use crate::store::{
    law_saved_message_is_listed, listed, new_message, next_message_id, LoginView, MessageRowView,
    MessageView, Scope, SummaryView,
};
use crate::terminal::{
    holds_terminator, input_read, is_line_ending, law_commands_and_uploads_are_told_apart,
    law_lines_arrive_in_turn, line_read, InputView, Reading, Step,
};
use crate::text::{decimal, integer, joined, trimmed, unsigned, upper_text, words};

verus! {

/// While a subject, a line of a body or a line for a remote board is waited for,
/// what the caller types arrives as it was typed, white space and all, whichever
/// ending it has; what stands behind it is left for the next read.
pub proof fn law_typed_lines_reach_the_session(
    state: StateView,
    after_cr: bool,
    lf: bool,
    text: Seq<char>,
    ending: Seq<u8>,
    rest: Seq<u8>,
    ended: bool,
)
    requires
        state is Subject || state is Body || state is Bridged,
        lf ==> after_cr,
        is_line_ending(ending),
        !holds_terminator(text),
        encode_utf8(text).len() <= 16384,
        after_cr && !lf ==> (encode_utf8(text) + ending)[0] != 10,
    ensures
        ({
            let front = if lf {
                seq![10u8]
            } else {
                Seq::empty()
            };
            let (left, event) = arrived(
                state,
                Reading {
                    input: front + encode_utf8(text) + ending + rest,
                    ended,
                    skip_optional_lf: after_cr,
                },
            );
            &&& event == Some(EventView::Line(text))
            &&& left.input == ending.drop_first() + rest
            &&& left.ended == ended
            &&& left.skip_optional_lf == (ending[0] == 13)
        }),
{
    law_lines_arrive_in_turn(after_cr, lf, text, ending, rest, ended);
}

/// A session that waits for a line takes what the terminal reads as one and
/// nothing else: the end of the input as the caller's leave, and what cannot be
/// read as a failure. One that waits for nothing of the caller leaves all of it.
pub proof fn law_sessions_read_what_they_wait_for(state: StateView, t: Reading)
    ensures
        state is Subject || state is Body || state is Bridged ==> {
            &&& arrived(state, t).0 == line_read(t).0
            &&& arrived(state, t).1 == (match line_read(t).1 {
                Ok(Step::Pending) => None,
                Ok(Step::Ready(Some(text))) => Some(EventView::Line(text)),
                Ok(Step::Ready(None)) => Some(EventView::End),
                Err(_) => Some(EventView::Failed),
            })
        },
        state is Command ==> {
            &&& arrived(state, t).0 == input_read(t).0
            &&& arrived(state, t).1 == (match input_read(t).1 {
                Ok(Step::Pending) => None,
                Ok(Step::Ready(Some(InputView::Line(text)))) => Some(EventView::Line(text)),
                Ok(Step::Ready(Some(InputView::Zmodem(bytes)))) => Some(EventView::Zmodem(bytes)),
                Ok(Step::Ready(None)) => Some(EventView::End),
                Err(_) => Some(EventView::Failed),
            })
        },
        !(state is Subject || state is Body || state is Bridged || state is Command) ==> arrived(
            state,
            t,
        ) == (t, None::<EventView>),
{
}

/// Where a command is waited for, a typed line arrives as it was typed, and an
/// upload by the bytes that open it.
pub proof fn law_commands_reach_the_session(
    text: Seq<char>,
    ending: Seq<u8>,
    rest: Seq<u8>,
    ended: bool,
)
    requires
        is_line_ending(ending),
        !holds_terminator(text),
        encode_utf8(text).len() <= 16384,
    ensures
        ({
            let opening = seq![0x2au8, 0x2a, 0x18, 0x42, 0x30, 0x30];
            let input = encode_utf8(text) + ending + rest;
            let (left, event) = arrived(
                StateView::Command,
                Reading { input, ended, skip_optional_lf: false },
            );
            if opening.is_prefix_of(input) {
                event == Some(EventView::Zmodem(opening)) && left.input == input.skip(6)
            } else {
                event == Some(EventView::Line(text)) && left.input == ending.drop_first() + rest
            }
        }),
{
    let input = encode_utf8(text) + ending + rest;
    let t = Reading { input, ended, skip_optional_lf: false };
    law_commands_and_uploads_are_told_apart(t);
    law_lines_arrive_in_turn(false, false, text, ending, rest, ended);
    assert(Seq::<u8>::empty() + encode_utf8(text) + ending + rest =~= input);
}

/// A caller is welcomed by name, over the radio with the name of the board in
/// front, and is told of HELP.
pub proof fn law_callers_are_greeted(s: SessionView)
    requires
        s.state is Start,
    ensures
        handled(s, EventView::Started) == (Outcome {
            state: StateView::Command,
            output: encode_utf8(
                (if s.welcome {
                    "Welcome to "@ + s.bbs + " amateur radio BBS."@ + "\r\n"@
                } else {
                    Seq::empty()
                }) + ("Welcome, "@ + s.identity + "."@ + "\r\n"@) + ("Type HELP for commands."@
                    + "\r\n"@) + s.prompt,
            ),
            request: RequestView::Input,
        }),
{
}

/// The commands about mail, logins and files ask for what belongs to the caller:
/// lists, messages and deletions under the caller's own callsign, a message by
/// the number that was typed, and a file by its name as it was typed.
pub proof fn law_commands_ask_for_what_was_typed(s: SessionView, typed: Seq<char>)
    requires
        s.state is Command,
    ensures
        ({
            let w = words(typed);
            let done = handled(s, EventView::Line(typed));
            let asks = |state: StateView, request: RequestView|
                done == (Outcome { state, output: Seq::empty(), request });
            let one = |word: Seq<char>| w.len() == 1 && upper_text(w[0]) == word;
            let two = |word: Seq<char>| w.len() == 2 && upper_text(w[0]) == word;
            let id = unsigned(w[1]);
            let numbered = id is Some && 0 < id->0 <= 0x7fff_ffff_ffff_ffff;
            &&& one("LIST"@) ==> asks(StateView::Listing, RequestView::ListVisible(s.identity))
            &&& one("SENT"@) ==> asks(StateView::ListingSent, RequestView::ListSent(s.identity))
            &&& one("LOGINS"@) ==> asks(StateView::ListingLogins, RequestView::RecentLogins(10))
            &&& one("FILES"@) ==> asks(StateView::ListingFiles, RequestView::ListFiles)
            &&& one("HEARD"@) && s.radio is Agw ==> asks(
                StateView::ListingHeard,
                RequestView::QueryHeard,
            )
            &&& two("DOWNLOAD"@) ==> asks(
                StateView::Resolving { name: w[1] },
                RequestView::ResolveDownload(w[1]),
            )
            &&& two("READ"@) && numbered ==> asks(
                StateView::Reading,
                RequestView::ReadMessage { viewer: s.identity, id: id->0 as i64 },
            )
            &&& two("DELETE"@) && numbered ==> asks(
                StateView::Deleting,
                RequestView::DeleteMessage { caller: s.identity, id: id->0 as i64 },
            )
        }),
{
    law_commands(typed);
}

/// What is answered at once: help, information, farewell, and what was typed
/// wrongly. Nothing is asked for, and the prompt follows.
pub proof fn law_simple_commands_are_answered(s: SessionView, typed: Seq<char>)
    requires
        s.state is Command,
    ensures
        ({
            let c = line_command(typed);
            let done = handled(s, EventView::Line(typed));
            let told = |text: Seq<char>|
                done == (Outcome {
                    state: StateView::Command,
                    output: encode_utf8(text + s.prompt),
                    request: RequestView::Input,
                });
            &&& c is Empty ==> told(Seq::empty())
            &&& c is Help ==> told(lines(help_lines(s.radio is Agw)))
            &&& c is Info ==> told(info_text(s.bbs))
            &&& c is InvalidId ==> told("Message ID must be a positive number."@ + "\r\n"@)
            &&& c is ReadUsage ==> told("Usage: READ <id>"@ + "\r\n"@)
            &&& c is DeleteUsage ==> told("Usage: DELETE <id>"@ + "\r\n"@)
            &&& c is DownloadUsage ==> told("Usage: DOWNLOAD <file>"@ + "\r\n"@)
            &&& c is ConnectUsage ==> told("Usage: CONNECT <destination> <ssid>"@ + "\r\n"@)
            &&& c is SendUsage ==> told("Usage: SEND <callsign|ALL>"@ + "\r\n"@)
            &&& c is Unknown ==> told("Unknown command. Type HELP for commands."@ + "\r\n"@)
            &&& c is Quit ==> done == (Outcome {
                state: StateView::Closed,
                output: encode_utf8("Goodbye."@ + "\r\n"@),
                request: RequestView::Close,
            })
        }),
{
}

/// What was asked for is written to the caller: every list as it is shown, a
/// message as it is read, and what became of a deletion or a message that was
/// saved. The prompt follows.
pub proof fn law_results_are_written(
    s: SessionView,
    summaries: Seq<SummaryView>,
    logins: Seq<LoginView>,
    stations: Seq<HeardView>,
    files: Seq<FileView>,
    message: MessageView,
    id: i64,
    reason: Seq<char>,
)
    ensures
        ({
            let told = |event: EventView, text: Seq<char>|
                handled(s, event) == (Outcome {
                    state: StateView::Command,
                    output: encode_utf8(text + s.prompt),
                    request: RequestView::Input,
                });
            &&& s.state is Listing ==> told(
                EventView::Summaries(summaries),
                visible_text(summaries),
            )
            &&& s.state is ListingSent ==> told(
                EventView::Summaries(summaries),
                sent_text(summaries),
            )
            &&& s.state is ListingLogins ==> told(EventView::Logins(logins), logins_text(logins))
            &&& s.state is ListingHeard ==> told(EventView::Heard(stations), heard_text(stations))
            &&& s.state is ListingHeard ==> told(
                EventView::HeardFailed(reason),
                "Cannot list heard callsigns: "@ + reason + "\r\n"@,
            )
            &&& s.state is ListingFiles ==> told(EventView::Files(files), files_text(files))
            &&& s.state is Reading ==> told(
                EventView::Found(Some(message)),
                message_text(message),
            )
            &&& s.state is Reading ==> told(EventView::Found(None), "Message not found."@ + "\r\n"@)
            &&& s.state is Deleting ==> told(EventView::Deleted(true), "Message deleted."@ + "\r\n"@)
            &&& s.state is Deleting ==> told(
                EventView::Deleted(false),
                "Message not found or cannot be deleted."@ + "\r\n"@,
            )
            &&& s.state is Saving ==> told(
                EventView::Saved(id),
                "Message #"@ + integer(id as int) + " saved."@ + "\r\n"@,
            )
        }),
{
}

/// A file that was asked for is sent under the name that was typed, from the path
/// at which it was found. Success is followed by silence, and anything else by a
/// line.
pub proof fn law_downloads_send_what_was_asked_for(
    s: SessionView,
    typed: Seq<char>,
    path: Seq<char>,
)
    requires
        s.state is Command,
        words(typed).len() == 2,
        upper_text(words(typed)[0]) == "DOWNLOAD"@,
    ensures
        ({
            let name = words(typed)[1];
            let first = handled(s, EventView::Line(typed));
            let looking = SessionView { state: first.state, ..s };
            let found = handled(looking, EventView::Resolved(Some(path)));
            let sending = SessionView { state: found.state, ..s };
            let told = |done: Outcome, text: Seq<char>|
                done == (Outcome {
                    state: StateView::Command,
                    output: encode_utf8(text + s.prompt),
                    request: RequestView::Input,
                });
            &&& first.request == RequestView::ResolveDownload(name)
            &&& first.output.len() == 0
            &&& found.request == (RequestView::SendFile { path, name })
            &&& found.output == encode_utf8("Starting ZMODEM download."@ + "\r\n"@)
            &&& handled(sending, EventView::Transferred(true)) == (Outcome {
                state: StateView::Command,
                output: Seq::empty(),
                request: RequestView::Input,
            })
            &&& told(
                handled(sending, EventView::Transferred(false)),
                "Download failed."@ + "\r\n"@,
            )
            &&& told(handled(looking, EventView::Resolved(None)), "File not found."@ + "\r\n"@)
            &&& told(handled(looking, EventView::ResolveFailed), "Invalid file name."@ + "\r\n"@)
        }),
{
    law_commands(typed);
}

/// An upload that a caller opens is received with the bytes that opened it; its
/// acknowledgement is waited for, and silence follows. One that fails is followed
/// by the prompt alone.
pub proof fn law_uploads_are_received(s: SessionView, opening: Seq<u8>)
    requires
        s.state is Command,
    ensures
        ({
            let first = handled(s, EventView::Zmodem(opening));
            let receiving = SessionView { state: first.state, ..s };
            let done = handled(receiving, EventView::Transferred(true));
            let waiting = SessionView { state: done.state, ..s };
            &&& first.request == RequestView::ReceiveUpload(opening)
            &&& first.output.len() == 0
            &&& done.request is AwaitAcknowledgement
            &&& done.output.len() == 0
            &&& handled(waiting, EventView::Acknowledged) == (Outcome {
                state: StateView::Command,
                output: Seq::empty(),
                request: RequestView::Input,
            })
            &&& handled(receiving, EventView::Transferred(false)) == (Outcome {
                state: StateView::Command,
                output: encode_utf8(s.prompt),
                request: RequestView::Input,
            })
        }),
{
    assert(Seq::<char>::empty() + s.prompt =~= s.prompt);
}

/// No station is ever called but the one that was typed, and under no callsign but
/// the caller's base callsign with the SSID that was typed.
pub proof fn law_nobody_else_is_called(s: SessionView, to: Seq<char>, ssid: Seq<char>)
    ensures
        commanded(s, CommandView::Connect { destination: to, ssid }).state
            matches StateView::Finding { source, destination } ==> {
            &&& parsed(to) == Ok::<Seq<char>, CallsignFault>(destination)
            &&& unsigned(ssid) is Some
            &&& ssid_attached(s.identity, unsigned(ssid)->0) == Ok::<Seq<char>, CallsignFault>(
                source,
            )
        },
{
}

/// A caller who may connect asks for the station that was typed, in full, under
/// the caller's own base callsign with the SSID that was typed; the endpoint is
/// looked for.
pub proof fn law_connections_are_asked_for(s: SessionView, typed: Seq<char>)
    requires
        s.state is Command,
        s.radio == (SessionRadio::Agw { connect: true }),
        is_callsign(s.identity),
        words(typed).len() == 3,
        upper_text(words(typed)[0]) == "CONNECT"@,
        parsed(words(typed)[1]) is Ok,
        unsigned(words(typed)[2]) is Some,
        unsigned(words(typed)[2])->0 <= 15,
        base_of(s.identity).len() + 1 + decimal(unsigned(words(typed)[2])->0).len() <= 9,
    ensures
        handled(s, EventView::Line(typed)) == (Outcome {
            state: StateView::Finding {
                source: base_of(s.identity) + "-"@ + decimal(unsigned(words(typed)[2])->0),
                destination: upper_text(trimmed(words(typed)[1])),
            },
            output: Seq::empty(),
            request: RequestView::FindEndpoint,
        }),
{
    law_commands(typed);
    let k = unsigned(words(typed)[2])->0;
    crate::callsign::law_what_a_callsign_is(words(typed)[1], ' ');
    crate::callsign::law_ssids_are_attached(s.identity, k);
}

/// Once the endpoint is found, the caller is connected from the source to the
/// destination that were asked for, and is told so.
pub proof fn law_callers_are_connected_where_they_asked(
    s: SessionView,
    source: Seq<char>,
    destination: Seq<char>,
    reason: Seq<char>,
)
    requires
        s.state == (StateView::Finding { source, destination }),
    ensures
        ({
            let found = handled(s, EventView::Endpoint(true));
            let connecting = SessionView { state: found.state, ..s };
            &&& found.request == (RequestView::Connect { source, destination })
            &&& found.output == encode_utf8(
                "Connecting "@ + source + " to "@ + destination + "..."@ + "\r\n"@,
            )
            &&& handled(s, EventView::Endpoint(false)) == (Outcome {
                state: StateView::Command,
                output: encode_utf8(
                    "Cannot connect: AGW is currently unavailable"@ + "\r\n"@ + s.prompt,
                ),
                request: RequestView::Input,
            })
            &&& handled(connecting, EventView::Connected) == (Outcome {
                state: StateView::Bridged,
                output: encode_utf8(
                    "Connected. Enter ~. on a line by itself to return here."@ + "\r\n"@,
                ),
                request: RequestView::Bridge,
            })
            &&& handled(connecting, EventView::ConnectFailed(reason)) == (Outcome {
                state: StateView::Command,
                output: encode_utf8("Connection failed: "@ + reason + "\r\n"@ + s.prompt),
                request: RequestView::Input,
            })
        }),
{
}

/// A request to connect is refused where the destination is no callsign, the SSID
/// no number up to 15, or the caller may not connect; each with its reason, and
/// no endpoint is looked for.
pub proof fn law_connections_are_refused(s: SessionView, typed: Seq<char>)
    requires
        s.state is Command,
        words(typed).len() == 3,
        upper_text(words(typed)[0]) == "CONNECT"@,
    ensures
        ({
            let to = parsed(words(typed)[1]);
            let k = unsigned(words(typed)[2]);
            let numbered = k is Some && k->0 <= 15;
            let done = handled(s, EventView::Line(typed));
            let told = |text: Seq<char>|
                done == (Outcome {
                    state: StateView::Command,
                    output: encode_utf8(text + "\r\n"@ + s.prompt),
                    request: RequestView::Input,
                });
            &&& to is Err ==> told(
                "Invalid destination callsign: "@ + callsign_message(to->Err_0),
            )
            &&& to is Ok && !numbered ==> told("SSID must be a number from 0 to 15."@)
            &&& to is Ok && numbered && s.radio is Mercury ==> told(
                "CONNECT is unsupported with Mercury."@,
            )
            &&& to is Ok && numbered && is_callsign(s.identity) && s.radio == (SessionRadio::Agw {
                connect: false,
            }) && base_of(s.identity).len() + 1 + decimal(k->0).len() <= 9 ==> told(
                "CONNECT is disabled for TCP clients."@,
            )
            &&& to is Ok && numbered && is_callsign(s.identity) && s.radio is Agw && base_of(
                s.identity,
            ).len() + 1 + decimal(k->0).len() > 9 ==> done == (Outcome {
                state: StateView::Closed,
                output: Seq::empty(),
                request: RequestView::Abort,
            })
            &&& done.request is FindEndpoint ==> to is Ok && numbered && s.radio == (
            SessionRadio::Agw { connect: true })
        }),
{
    law_commands(typed);
    let k = unsigned(words(typed)[2]);
    if k is Some && k->0 <= 15 && is_callsign(s.identity) {
        law_ssid_keeps_base(s.identity, k->0);
        if k->0 < 10 {
            crate::text::law_decimal(0, k->0);
        } else {
            crate::text::law_decimal(1, (k->0 - 10) as nat);
            crate::text::law_decimal(1, 1);
        }
    }
}

/// While a caller is connected to a remote board, a line goes there with a CR
/// behind it, `~.` alone leaves, and what the remote board sends is written as it
/// is. The end of the connection, for whatever reason, is told; the end of the
/// caller drops it and closes the session.
pub proof fn law_connections_are_bridged(
    s: SessionView,
    typed: Seq<char>,
    bytes: Seq<u8>,
    reason: Seq<char>,
)
    requires
        s.state is Bridged,
    ensures
        ({
            let at = |state: StateView| SessionView { state, ..s };
            let asks = |done: Outcome, state: StateView, output: Seq<u8>, request: RequestView|
                done == (Outcome { state, output, request });
            let told = |done: Outcome, text: Seq<char>|
                done == (Outcome {
                    state: StateView::Command,
                    output: encode_utf8(text + "\r\n"@ + s.prompt),
                    request: RequestView::Input,
                });
            let line = handled(s, EventView::Line(typed));
            let gone = handled(s, EventView::End);
            &&& typed != "~."@ ==> line.request == RequestView::SendRemote(
                encode_utf8(typed) + seq![13u8],
            )
            &&& typed == "~."@ ==> line.request is DisconnectRemote
            &&& line.output.len() == 0
            &&& typed != "~."@ ==> asks(
                handled(at(line.state), EventView::RemoteSent),
                StateView::Bridged,
                Seq::empty(),
                RequestView::Bridge,
            )
            &&& typed == "~."@ ==> told(
                handled(at(line.state), EventView::RemoteClosed),
                "Disconnected from remote BBS."@,
            )
            &&& asks(
                handled(s, EventView::RemoteData(bytes)),
                StateView::Bridged,
                bytes,
                RequestView::Bridge,
            )
            &&& told(handled(s, EventView::RemoteEnd), "Remote BBS disconnected."@)
            &&& told(
                handled(s, EventView::RemoteFailed(reason)),
                "Remote BBS error: "@ + reason,
            )
            &&& gone.request is DropRemote
            &&& asks(
                handled(at(gone.state), EventView::RemoteClosed),
                StateView::Closed,
                Seq::empty(),
                RequestView::Close,
            )
        }),
{
    assert(encode_utf8(typed).push(13u8) =~= encode_utf8(typed) + seq![13u8]);
}

/// A message is addressed to the station that was typed, in full, or to everybody
/// with ALL in any case; the subject is asked for.
pub proof fn law_messages_are_addressed(s: SessionView, typed: Seq<char>)
    requires
        s.state is Command,
        words(typed).len() == 2,
        upper_text(words(typed)[0]) == "SEND"@,
    ensures
        ({
            let to = words(typed)[1];
            let done = handled(s, EventView::Line(typed));
            let asks = |recipient: Option<Seq<char>>|
                done == (Outcome {
                    state: StateView::Subject { recipient },
                    output: encode_utf8("Subject: "@),
                    request: RequestView::Line,
                });
            &&& upper_text(to) == "ALL"@ ==> asks(None)
            &&& upper_text(to) != "ALL"@ && parsed(to) is Ok ==> asks(Some(upper_text(trimmed(to))))
            &&& upper_text(to) != "ALL"@ && parsed(to) is Err ==> done == (Outcome {
                state: StateView::Command,
                output: encode_utf8(
                    "Invalid recipient: "@ + callsign_message(parsed(to)->Err_0) + "\r\n"@
                        + s.prompt,
                ),
                request: RequestView::Input,
            })
        }),
{
    law_commands(typed);
    crate::callsign::law_what_a_callsign_is(words(typed)[1], ' ');
}

/// The subject is what was typed without white space at its ends, of one to 80
/// characters; the body is then asked for, with the recipient kept.
pub proof fn law_subjects_are_taken(
    s: SessionView,
    recipient: Option<Seq<char>>,
    typed: Seq<char>,
)
    requires
        s.state == (StateView::Subject { recipient }),
    ensures
        ({
            let subject = trimmed(typed);
            let done = handled(s, EventView::Line(typed));
            let told = |text: Seq<char>|
                done == (Outcome {
                    state: StateView::Command,
                    output: encode_utf8(text + "\r\n"@ + s.prompt),
                    request: RequestView::Input,
                });
            &&& 1 <= subject.len() <= 80 ==> done == (Outcome {
                state: StateView::Body { recipient, subject, lines: Seq::empty() },
                output: encode_utf8(
                    "Enter message text. End with a line containing only a period."@ + "\r\n"@
                        + s.body_prompt,
                ),
                request: RequestView::Line,
            })
            &&& subject.len() == 0 ==> told("Subject cannot be empty."@)
            &&& subject.len() > 80 ==> told("Subject cannot exceed 80 characters."@)
            &&& handled(s, EventView::End) == (Outcome {
                state: StateView::Command,
                output: encode_utf8(s.prompt),
                request: RequestView::Input,
            })
        }),
{
    assert(Seq::<char>::empty() + s.prompt =~= s.prompt);
}

/// Each line of a body is added as it was typed, with its white space, as long as
/// the lines and the line feeds between them are 4000 characters or fewer. A
/// period alone ends the body, and what is saved is the caller's callsign, the
/// recipient, the subject and the lines joined by line feeds.
pub proof fn law_bodies_are_taken_as_typed(
    s: SessionView,
    recipient: Option<Seq<char>>,
    subject: Seq<char>,
    before: Seq<Seq<char>>,
    text: Seq<char>,
    ending: Seq<u8>,
    rest: Seq<u8>,
    ended: bool,
)
    requires
        s.state == (StateView::Body { recipient, subject, lines: before }),
        is_line_ending(ending),
        !holds_terminator(text),
        encode_utf8(text).len() <= 16384,
    ensures
        ({
            let event = arrived(
                s.state,
                Reading {
                    input: encode_utf8(text) + ending + rest,
                    ended,
                    skip_optional_lf: false,
                },
            ).1;
            let done = handled(s, event->0);
            let body = joined(before, '\n');
            let length = joined(before.push(text), '\n').len();
            let told = |text: Seq<char>|
                done == (Outcome {
                    state: StateView::Command,
                    output: encode_utf8(text + "\r\n"@ + s.prompt),
                    request: RequestView::Input,
                });
            &&& event is Some
            &&& text != "."@ && length <= 4000 ==> done == (Outcome {
                state: StateView::Body { recipient, subject, lines: before + seq![text] },
                output: encode_utf8(s.body_prompt),
                request: RequestView::Line,
            })
            &&& text != "."@ && length > 4000 ==> told("Message cannot exceed 4000 characters."@)
            &&& text == "."@ && trimmed(body).len() > 0 ==> done == (Outcome {
                state: StateView::Saving,
                output: Seq::empty(),
                request: RequestView::SaveMessage { sender: s.identity, recipient, subject, body },
            })
            &&& text == "."@ && trimmed(body).len() == 0 ==> told("Message body cannot be empty."@)
            &&& handled(s, EventView::End) == (Outcome {
                state: StateView::Command,
                output: encode_utf8(s.prompt),
                request: RequestView::Input,
            })
        }),
{
    law_typed_lines_reach_the_session(s.state, false, false, text, ending, rest, ended);
    assert(Seq::<u8>::empty() + encode_utf8(text) + ending + rest =~= encode_utf8(text) + ending
        + rest);
    assert(before.push(text) =~= before + seq![text]);
    assert(Seq::<char>::empty() + s.prompt =~= s.prompt);
}

/// What one caller has saved, another lists: the newest message heads the listing
/// of everybody it is for, in a line with its number, the full callsign of the
/// sender, the time and the subject, as they were when it was saved.
#[verifier::spinoff_prover]
pub proof fn law_saved_mail_is_listed_in_full(
    rows: Seq<MessageRowView>,
    sender: Seq<char>,
    recipient: Option<Seq<char>>,
    subject: Seq<char>,
    body: Seq<char>,
    at: Seq<char>,
    viewer: SessionView,
)
    requires
        next_message_id(rows) is Some,
        is_callsign(sender),
        recipient matches Some(to) ==> is_callsign(to) && base_of(to) == base_of(viewer.identity),
        listed(rows, Scope::Visible(base_of(viewer.identity))) is Ok,
        viewer.state is Listing,
    ensures
        ({
            let id = next_message_id(rows)->0;
            let after = rows.push(new_message(id, sender, recipient, subject, body, at));
            let list = listed(after, Scope::Visible(base_of(viewer.identity)))->Ok_0;
            let line = visible_line(list[0]);
            let front = "#"@ + integer(id as int) + (if recipient is Some {
                " [MAIL] FROM "@
            } else {
                " [PUBLIC] FROM "@
            });
            &&& list.len() > 0
            &&& list.drop_first() == listed(
                rows,
                Scope::Visible(base_of(viewer.identity)),
            )->Ok_0
            &&& line == front + sender + " "@ + at + " - "@ + subject
            &&& handled(viewer, EventView::Summaries(list)).output == encode_utf8(
                visible_text(list) + viewer.prompt,
            )
        }),
{
    let id = next_message_id(rows)->0;
    law_saved_message_is_listed(rows, sender, recipient, subject, body, at, viewer.identity);
    let older = listed(rows, Scope::Visible(base_of(viewer.identity)))->Ok_0;
    let entry = SummaryView { id, sender, recipient, subject, created_at: at };
    assert((seq![entry] + older).drop_first() =~= older);
    crate::report::law_listing_lines_show_every_field(entry);
}

/// A session waits for certain events. Any other gives it up, without a word, and
/// so does input that cannot be read; a caller who goes while a command is waited
/// for ends it in good order.
pub proof fn law_unexpected_events_end_the_session(s: SessionView, event: EventView)
    ensures
        ({
            let lines = s.state is Command || s.state is Subject || s.state is Body || s.state
                is Bridged;
            let expected = match event {
                EventView::Started => s.state is Start,
                EventView::Line(_) => lines,
                EventView::End => lines,
                EventView::Zmodem(_) => s.state is Command,
                EventView::Summaries(_) => s.state is Listing || s.state is ListingSent,
                EventView::Logins(_) => s.state is ListingLogins,
                EventView::Heard(_) => s.state is ListingHeard,
                EventView::HeardFailed(_) => s.state is ListingHeard,
                EventView::Files(_) => s.state is ListingFiles,
                EventView::Resolved(_) => s.state is Resolving,
                EventView::ResolveFailed => s.state is Resolving,
                EventView::Transferred(_) => s.state is Sending || s.state is Uploading,
                EventView::Acknowledged => s.state is Acknowledging,
                EventView::Found(_) => s.state is Reading,
                EventView::Deleted(_) => s.state is Deleting,
                EventView::Saved(_) => s.state is Saving,
                EventView::Endpoint(_) => s.state is Finding,
                EventView::Connected => s.state is Connecting,
                EventView::ConnectFailed(_) => s.state is Connecting,
                EventView::RemoteData(_) => s.state is Bridged,
                EventView::RemoteEnd => s.state is Bridged,
                EventView::RemoteFailed(_) => s.state is Bridged,
                EventView::RemoteSent => s.state is Relaying,
                EventView::RemoteClosed => s.state is Leaving || s.state is Dropping,
                EventView::Failed => false,
            };
            &&& !expected ==> handled(s, event) == (Outcome {
                state: StateView::Closed,
                output: Seq::empty(),
                request: RequestView::Abort,
            })
            &&& s.state is Command ==> handled(s, EventView::End) == (Outcome {
                state: StateView::Closed,
                output: Seq::empty(),
                request: RequestView::Close,
            })
        }),
{
}

/// What a session is told, asks for and waits for is handed over as it is held:
/// every callsign in full, every text and every byte.
pub proof fn law_events_and_requests_are_what_is_held(
    text: String,
    other: String,
    bytes: Vec<u8>,
    a: Callsign,
    b: Callsign,
    id: i64,
    done: bool,
)
    ensures
        SessionEvent::Line(text)@ == EventView::Line(text@),
        SessionEvent::Zmodem(bytes)@ == EventView::Zmodem(bytes@),
        SessionEvent::RemoteData(bytes)@ == EventView::RemoteData(bytes@),
        SessionEvent::HeardFailed(text)@ == EventView::HeardFailed(text@),
        SessionEvent::ConnectFailed(text)@ == EventView::ConnectFailed(text@),
        SessionEvent::RemoteFailed(text)@ == EventView::RemoteFailed(text@),
        SessionEvent::Resolved(Some(text))@ == EventView::Resolved(Some(text@)),
        SessionEvent::Resolved(None)@ == EventView::Resolved(None),
        SessionEvent::Transferred(done)@ == EventView::Transferred(done),
        SessionEvent::Deleted(done)@ == EventView::Deleted(done),
        SessionEvent::Endpoint(done)@ == EventView::Endpoint(done),
        SessionEvent::Saved(id)@ == EventView::Saved(id),
        optional_event(Some(SessionEvent::Line(text))) == Some(EventView::Line(text@)),
        optional_event(Some(SessionEvent::Zmodem(bytes))) == Some(EventView::Zmodem(bytes@)),
        optional_event(None) == None::<EventView>,
        SessionRequest::ListVisible(a)@ == RequestView::ListVisible(a@),
        SessionRequest::ListSent(a)@ == RequestView::ListSent(a@),
        SessionRequest::ResolveDownload(text)@ == RequestView::ResolveDownload(text@),
        (SessionRequest::SendFile { path: text, name: other })@ == (RequestView::SendFile {
            path: text@,
            name: other@,
        }),
        SessionRequest::ReceiveUpload(bytes)@ == RequestView::ReceiveUpload(bytes@),
        (SessionRequest::ReadMessage { viewer: a, id })@ == (RequestView::ReadMessage {
            viewer: a@,
            id,
        }),
        (SessionRequest::DeleteMessage { caller: a, id })@ == (RequestView::DeleteMessage {
            caller: a@,
            id,
        }),
        (SessionRequest::SaveMessage {
            sender: a,
            recipient: Some(b),
            subject: text,
            body: other,
        })@ == (RequestView::SaveMessage {
            sender: a@,
            recipient: Some(b@),
            subject: text@,
            body: other@,
        }),
        (SessionRequest::SaveMessage { sender: a, recipient: None, subject: text, body: other })@
            == (RequestView::SaveMessage {
            sender: a@,
            recipient: None,
            subject: text@,
            body: other@,
        }),
        (SessionRequest::Connect { source: a, destination: b })@ == (RequestView::Connect {
            source: a@,
            destination: b@,
        }),
        SessionRequest::SendRemote(bytes)@ == RequestView::SendRemote(bytes@),
        (SessionState::Resolving { name: text })@ == (StateView::Resolving { name: text@ }),
        (SessionState::Finding { source: a, destination: b })@ == (StateView::Finding {
            source: a@,
            destination: b@,
        }),
        (SessionState::Subject { recipient: Some(a) })@ == (StateView::Subject {
            recipient: Some(a@),
        }),
{
}

} // verus!
