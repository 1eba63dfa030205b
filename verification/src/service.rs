//! The services of the board: its radio configuration and how TCP callers log
//! in.

use vstd::prelude::*;
use vstd::string::*;
use vstd::utf8::*;

use crate::callsign::{callsign_message, is_callsign, parsed, Callsign};
use crate::report::{labelled_line, line, push_line};
use crate::session::{SessionOptions, SessionRadio};
use crate::terminal::{line_read, Reading, Step, Terminal, TerminalError};

verus! {

/// How long to wait before a radio that has failed is tried again.
pub const RADIO_RETRY_MILLIS: u64 = 5000;

/// The radio of the board.
#[derive(Debug)]
pub enum RadioConfig {
    /// An AGWPE endpoint and one of its ports.
    Agw { addr: String, port: u8, connect_via: bool },
    /// A Mercury modem with its two TCP ports.
    Mercury { host: String, control_port: u16, data_port: u16 },
}

/// `RadioConfig` as a mathematical value.
#[verifier::ext_equal]
pub enum RadioView {
    Agw { addr: Seq<char>, port: u8, connect_via: bool },
    Mercury { host: Seq<char>, control_port: u16, data_port: u16 },
}

impl View for RadioConfig {
    type V = RadioView;

    open spec fn view(&self) -> RadioView {
        match self {
            RadioConfig::Agw { addr, port, connect_via } => RadioView::Agw {
                addr: addr@,
                port: *port,
                connect_via: *connect_via,
            },
            RadioConfig::Mercury { host, control_port, data_port } => RadioView::Mercury {
                host: host@,
                control_port: *control_port,
                data_port: *data_port,
            },
        }
    }
}

impl Clone for RadioConfig {
    fn clone(&self) -> (r: Self)
        ensures
            r@ == self@,
    {
        match self {
            RadioConfig::Agw { addr, port, connect_via } => RadioConfig::Agw {
                addr: addr.clone(),
                port: *port,
                connect_via: *connect_via,
            },
            RadioConfig::Mercury { host, control_port, data_port } => RadioConfig::Mercury {
                host: host.clone(),
                control_port: *control_port,
                data_port: *data_port,
            },
        }
    }
}

/// The kinds of radio.
#[derive(Clone, Copy, Debug, Eq, PartialEq, Structural)]
pub enum RadioKind {
    Agw,
    Mercury,
}

/// What the operator has said about the radio.
#[derive(Debug)]
pub struct RadioOptions {
    pub radio: RadioKind,
    pub agw_addr: String,
    pub agw_port: u8,
    pub connect_via: bool,
    pub allow_tcp_connect: bool,
    pub mercury_host: String,
    pub mercury_control_port: u16,
    pub mercury_data_port: u16,
}

impl Default for RadioOptions {
    fn default() -> (r: Self)
        ensures
            r.radio == RadioKind::Agw,
            r.agw_addr@ == "127.0.0.1:8010"@,
            r.agw_port == 1,
            !r.connect_via,
            !r.allow_tcp_connect,
            r.mercury_host@ == "127.0.0.1"@,
            r.mercury_control_port == 8300,
            r.mercury_data_port == 8301,
    {
        RadioOptions {
            radio: RadioKind::Agw,
            agw_addr: "127.0.0.1:8010".to_owned(),
            agw_port: 1,
            connect_via: false,
            allow_tcp_connect: false,
            mercury_host: "127.0.0.1".to_owned(),
            mercury_control_port: 8300,
            mercury_data_port: 8301,
        }
    }
}

/// Options that contradict each other.
#[derive(Clone, Copy, Debug, Eq, PartialEq, Structural)]
pub enum ConfigError {
    ConnectVia,
    AllowTcpConnect,
}

impl ConfigError {
    /// The words in which the contradiction is reported.
    pub fn message(&self) -> (r: &'static str)
        ensures
            r@ == (match self {
                ConfigError::ConnectVia => "--connect-via is unsupported with Mercury"@,
                ConfigError::AllowTcpConnect => "--allow-tcp-connect is unsupported with Mercury"@,
            }),
    {
        match self {
            ConfigError::ConnectVia => "--connect-via is unsupported with Mercury",
            ConfigError::AllowTcpConnect => "--allow-tcp-connect is unsupported with Mercury",
        }
    }
}

/// The radio that some options ask for.
pub open spec fn radio_asked(options: RadioOptions) -> Result<RadioView, ConfigError> {
    match options.radio {
        RadioKind::Agw => Ok(
            RadioView::Agw {
                addr: options.agw_addr@,
                port: options.agw_port,
                connect_via: options.connect_via,
            },
        ),
        RadioKind::Mercury => if options.connect_via {
            Err(ConfigError::ConnectVia)
        } else if options.allow_tcp_connect {
            Err(ConfigError::AllowTcpConnect)
        } else {
            Ok(
                RadioView::Mercury {
                    host: options.mercury_host@,
                    control_port: options.mercury_control_port,
                    data_port: options.mercury_data_port,
                },
            )
        },
    }
}

impl RadioOptions {
    /// The radio that the options ask for. With Mercury there are no outgoing
    /// connections.
    pub fn radio_config(&self) -> (r: Result<RadioConfig, ConfigError>)
        ensures
            match r {
                Ok(config) => match self.radio {
                    RadioKind::Agw => config@ == (RadioView::Agw {
                        addr: self.agw_addr@,
                        port: self.agw_port,
                        connect_via: self.connect_via,
                    }),
                    RadioKind::Mercury => {
                        &&& !self.connect_via
                        &&& !self.allow_tcp_connect
                        &&& config@ == (RadioView::Mercury {
                            host: self.mercury_host@,
                            control_port: self.mercury_control_port,
                            data_port: self.mercury_data_port,
                        })
                    },
                },
                Err(ConfigError::ConnectVia) => self.radio == RadioKind::Mercury
                    && self.connect_via,
                Err(ConfigError::AllowTcpConnect) => self.radio == RadioKind::Mercury
                    && !self.connect_via && self.allow_tcp_connect,
            },
            match r {
                Ok(config) => radio_asked(*self) == Ok::<RadioView, ConfigError>(config@),
                Err(error) => radio_asked(*self) == Err::<RadioView, ConfigError>(error),
            },
    {
        match self.radio {
            RadioKind::Agw => Ok(
                RadioConfig::Agw {
                    addr: self.agw_addr.clone(),
                    port: self.agw_port,
                    connect_via: self.connect_via,
                },
            ),
            RadioKind::Mercury => {
                if self.connect_via {
                    return Err(ConfigError::ConnectVia);
                }
                if self.allow_tcp_connect {
                    return Err(ConfigError::AllowTcpConnect);
                }
                Ok(
                    RadioConfig::Mercury {
                        host: self.mercury_host.clone(),
                        control_port: self.mercury_control_port,
                        data_port: self.mercury_data_port,
                    },
                )
            },
        }
    }
}

/// How a caller has come to the board.
#[derive(Clone, Copy, Debug, Eq, PartialEq, Structural)]
pub enum Entrance {
    /// Over TCP, where outgoing connections are allowed or not.
    Tcp { allow_connect: bool },
    /// Over the radio.
    Radio,
}

/// What a session may do with the radio: TCP callers connect to other boards only
/// where that is allowed, and nobody does with Mercury.
pub open spec fn session_radio(radio: RadioView, entrance: Entrance) -> SessionRadio {
    match radio {
        RadioView::Mercury { .. } => SessionRadio::Mercury,
        RadioView::Agw { .. } => SessionRadio::Agw {
            connect: match entrance {
                Entrance::Tcp { allow_connect } => allow_connect,
                Entrance::Radio => true,
            },
        },
    }
}

/// How a session is run. Radio callers are welcomed by the session; TCP callers
/// have been welcomed before they logged in.
pub fn session_options(
    radio: &RadioConfig,
    entrance: Entrance,
    prompt: &str,
    body_prompt: &str,
) -> (r: SessionOptions)
    ensures
        r.prompt@ == prompt@,
        r.body_prompt@ == body_prompt@,
        r.show_bbs_welcome == (entrance == Entrance::Radio),
        r.radio == session_radio(radio@, entrance),
{
    let (welcome, connect): (bool, bool) = match entrance {
        Entrance::Tcp { allow_connect } => (false, allow_connect),
        Entrance::Radio => (true, true),
    };
    let session_radio: SessionRadio = match radio {
        RadioConfig::Mercury { host: _, control_port: _, data_port: _ } => SessionRadio::Mercury,
        RadioConfig::Agw { addr: _, port: _, connect_via: _ } => SessionRadio::Agw { connect },
    };
    SessionOptions {
        prompt: prompt.to_owned(),
        body_prompt: body_prompt.to_owned(),
        show_bbs_welcome: welcome,
        radio: session_radio,
    }
}

/// How many callsigns a TCP caller may try.
pub const LOGIN_ATTEMPTS: u8 = 3;

/// A TCP caller who has not logged in.
#[derive(Debug)]
pub struct Login {
    bbs_callsign: Callsign,
    failed: u8,
}

/// A login in progress.
#[verifier::ext_equal]
pub struct LoginProgress {
    /// The callsign of the board.
    pub bbs: Seq<char>,
    /// How many callsigns were invalid.
    pub failed: int,
}

impl View for Login {
    type V = LoginProgress;

    closed spec fn view(&self) -> LoginProgress {
        LoginProgress { bbs: self.bbs_callsign@, failed: self.failed as int }
    }
}

/// What a login has come to.
#[derive(Debug)]
pub enum LoginStep {
    /// More has to arrive.
    Wait,
    /// The caller is asked again.
    Retry,
    /// The caller is known.
    Accepted(Callsign),
    /// The caller is turned away.
    Refused,
    /// The caller has gone.
    Gone,
    /// The caller's input cannot be read.
    Failed(TerminalError),
}

/// `LoginStep` as a mathematical value.
#[verifier::ext_equal]
pub enum LoginStepView {
    Wait,
    Retry,
    Accepted(Seq<char>),
    Refused,
    Gone,
    Failed(TerminalError),
}

impl View for LoginStep {
    type V = LoginStepView;

    open spec fn view(&self) -> LoginStepView {
        match self {
            LoginStep::Wait => LoginStepView::Wait,
            LoginStep::Retry => LoginStepView::Retry,
            LoginStep::Accepted(callsign) => LoginStepView::Accepted(callsign@),
            LoginStep::Refused => LoginStepView::Refused,
            LoginStep::Gone => LoginStepView::Gone,
            LoginStep::Failed(error) => LoginStepView::Failed(*error),
        }
    }
}

/// What a login comes to.
#[verifier::ext_equal]
pub struct LoginOutcome {
    pub failed: int,
    /// What is written to the caller.
    pub text: Seq<char>,
    pub step: LoginStepView,
}

/// The first words to a TCP caller.
pub open spec fn login_greeting(bbs: Seq<char>) -> Seq<char> {
    line("Welcome to "@ + bbs + " amateur radio BBS."@) + "Callsign: "@
}

/// What a typed callsign comes to.
pub open spec fn callsign_typed(p: LoginProgress, typed: Seq<char>) -> LoginOutcome {
    match parsed(typed) {
        Ok(callsign) => LoginOutcome {
            failed: p.failed,
            text: Seq::empty(),
            step: LoginStepView::Accepted(callsign),
        },
        Err(fault) => {
            let refusal = line("Invalid callsign: "@ + callsign_message(fault));
            if p.failed + 1 < LOGIN_ATTEMPTS {
                LoginOutcome {
                    failed: p.failed + 1,
                    text: refusal + "Callsign: "@,
                    step: LoginStepView::Retry,
                }
            } else {
                LoginOutcome {
                    failed: LOGIN_ATTEMPTS as int,
                    text: refusal + line("Too many invalid login attempts."@),
                    step: LoginStepView::Refused,
                }
            }
        },
    }
}

/// What a login comes to with what has arrived.
pub open spec fn login_turn(p: LoginProgress, t: Reading) -> (Reading, LoginOutcome) {
    let (left, result) = line_read(t);
    let same = LoginOutcome { failed: p.failed, text: Seq::empty(), step: LoginStepView::Wait };
    (
        left,
        match result {
            Ok(Step::Pending) => same,
            Ok(Step::Ready(Some(typed))) => callsign_typed(p, typed),
            Ok(Step::Ready(None)) => LoginOutcome { step: LoginStepView::Gone, ..same },
            Err(error) => LoginOutcome { step: LoginStepView::Failed(error), ..same },
        },
    )
}

impl Login {
    /// Welcome a TCP caller, and ask for a callsign.
    pub fn new(bbs_callsign: Callsign, terminal: &mut Terminal) -> (r: Login)
        ensures
            r@ == (LoginProgress { bbs: bbs_callsign@, failed: 0 }),
            final(terminal).reading() == old(terminal).reading(),
            final(terminal).output() == old(terminal).output() + encode_utf8(
                login_greeting(bbs_callsign@),
            ),
            final(terminal).closed() == old(terminal).closed(),
    {
        let mut welcome: String = "Welcome to ".to_owned();
        welcome.append(bbs_callsign.as_str());
        welcome.append(" amateur radio BBS.");
        let mut text: String = String::new();
        push_line(&mut text, welcome.as_str());
        text.append("Callsign: ");
        assert(text@ =~= login_greeting(bbs_callsign@));
        terminal.write(text.as_str());
        Login { bbs_callsign, failed: 0 }
    }

    /// Take a login further with what has arrived.
    pub fn handle_tcp_session(&mut self, terminal: &mut Terminal) -> (r: LoginStep)
        ensures
            ({
                let (left, outcome) = login_turn(old(self)@, old(terminal).reading());
                &&& final(self)@ == (LoginProgress { failed: outcome.failed, ..old(self)@ })
                &&& final(terminal).reading() == left
                &&& final(terminal).output() == old(terminal).output() + encode_utf8(
                    outcome.text,
                )
                &&& final(terminal).closed() == old(terminal).closed()
                &&& r@ == outcome.step
            }),
    {
        proof {
            assert(encode_utf8(Seq::<char>::empty()) =~= Seq::<u8>::empty());
        }
        match terminal.read_line() {
            Ok(Step::Pending) => LoginStep::Wait,
            Ok(Step::Ready(None)) => LoginStep::Gone,
            Err(error) => LoginStep::Failed(error),
            Ok(Step::Ready(Some(typed))) => match Callsign::parse(typed.as_str()) {
                Ok(callsign) => LoginStep::Accepted(callsign),
                Err(error) => {
                    let mut text: String = labelled_line(
                        "Invalid callsign: ",
                        error.message().as_str(),
                    );
                    if self.failed < LOGIN_ATTEMPTS - 1 {
                        self.failed = self.failed + 1;
                        text.append("Callsign: ");
                        terminal.write(text.as_str());
                        LoginStep::Retry
                    } else {
                        self.failed = LOGIN_ATTEMPTS;
                        push_line(&mut text, "Too many invalid login attempts.");
                        terminal.write(text.as_str());
                        LoginStep::Refused
                    }
                },
            },
        }
    }
}

/// A TCP caller is known by the callsign that was typed, normalized, and by no
/// other; a text that is no callsign lets nobody in.
pub proof fn law_login_needs_a_callsign(p: LoginProgress, typed: Seq<char>)
    ensures
        callsign_typed(p, typed).step is Accepted <==> is_callsign(
            crate::callsign::normalized(typed),
        ),
        callsign_typed(p, typed).step matches LoginStepView::Accepted(callsign) ==> callsign
            == crate::callsign::normalized(typed),
{
    crate::callsign::law_parsed_is_callsign(typed);
}

/// The third invalid callsign is the last.
pub proof fn law_three_attempts(p: LoginProgress, a: Seq<char>, b: Seq<char>, c: Seq<char>)
    requires
        p.failed == 0,
        parsed(a) is Err,
        parsed(b) is Err,
        parsed(c) is Err,
    ensures
        ({
            let first = callsign_typed(p, a);
            let second = callsign_typed(LoginProgress { failed: first.failed, ..p }, b);
            let third = callsign_typed(LoginProgress { failed: second.failed, ..p }, c);
            &&& first.step is Retry
            &&& second.step is Retry
            &&& third.step is Refused
        }),
{
}

/// What a radio is doing.
#[derive(Clone, Copy, Debug, Eq, PartialEq, Structural)]
pub enum RadioState {
    /// It listens for callers, or tries to.
    Listening,
    /// It waits before it is tried again.
    Retrying,
    /// It has been shut down.
    Stopped,
}

/// What happens to a radio.
#[derive(Clone, Copy, Debug, Eq, PartialEq, Structural)]
pub enum RadioEvent {
    /// It could not be set up, or it has failed.
    Failed,
    /// The time until the next attempt is over.
    Waited,
    /// The board is shut down.
    ShutDown,
}

/// What has to be done about a radio.
#[derive(Clone, Copy, Debug, Eq, PartialEq, Structural)]
pub enum RadioAction {
    /// Set it up, and listen.
    Listen,
    /// Wait for that many milliseconds.
    Wait(u64),
    /// Leave it.
    Exit,
}

/// What an event comes to: a radio that fails is tried again after a while, until
/// the board is shut down.
pub open spec fn supervised(state: RadioState, event: RadioEvent) -> (RadioState, RadioAction) {
    if state == RadioState::Stopped || event == RadioEvent::ShutDown {
        (RadioState::Stopped, RadioAction::Exit)
    } else if event == RadioEvent::Failed {
        (RadioState::Retrying, RadioAction::Wait(RADIO_RETRY_MILLIS))
    } else {
        (RadioState::Listening, RadioAction::Listen)
    }
}

/// Keeps a radio running.
#[derive(Debug)]
pub struct Supervisor {
    state: RadioState,
}

impl View for Supervisor {
    type V = RadioState;

    closed spec fn view(&self) -> RadioState {
        self.state
    }
}

impl Supervisor {
    /// A radio that is about to be set up.
    pub fn new() -> (r: Supervisor)
        ensures
            r@ == RadioState::Listening,
    {
        Supervisor { state: RadioState::Listening }
    }

    /// React to an event.
    pub fn supervise(&mut self, event: RadioEvent) -> (r: RadioAction)
        ensures
            (final(self)@, r) == supervised(old(self)@, event),
    {
        if self.state == RadioState::Stopped || event == RadioEvent::ShutDown {
            self.state = RadioState::Stopped;
            RadioAction::Exit
        } else if event == RadioEvent::Failed {
            self.state = RadioState::Retrying;
            RadioAction::Wait(RADIO_RETRY_MILLIS)
        } else {
            self.state = RadioState::Listening;
            RadioAction::Listen
        }
    }
}

/// What an AX.25 listener tells.
#[derive(Debug)]
pub enum ListenerEvent {
    /// A station has connected.
    Accepted(String),
    /// No further station can be accepted.
    AcceptFailed,
    /// The login of a caller has been recorded or not.
    Recorded(bool),
}

/// What has to be done about an AX.25 listener.
#[derive(Debug)]
pub enum ListenerAction {
    /// Record the login of a caller.
    Record(Callsign),
    /// Serve the caller a session, beside those that are served already.
    Serve,
    /// Leave the caller.
    Leave,
    /// Give the listener up: the station has no callsign.
    InvalidCallsign,
    /// Give the listener up.
    GiveUp,
}

/// `ListenerEvent` as a mathematical value.
#[verifier::ext_equal]
pub enum ListenerEventView {
    Accepted(Seq<char>),
    AcceptFailed,
    Recorded(bool),
}

/// `ListenerAction` as a mathematical value.
#[verifier::ext_equal]
pub enum ListenerActionView {
    Record(Seq<char>),
    Serve,
    Leave,
    InvalidCallsign,
    GiveUp,
}

impl View for ListenerEvent {
    type V = ListenerEventView;

    open spec fn view(&self) -> ListenerEventView {
        match self {
            ListenerEvent::Accepted(remote) => ListenerEventView::Accepted(remote@),
            ListenerEvent::AcceptFailed => ListenerEventView::AcceptFailed,
            ListenerEvent::Recorded(done) => ListenerEventView::Recorded(*done),
        }
    }
}

impl View for ListenerAction {
    type V = ListenerActionView;

    open spec fn view(&self) -> ListenerActionView {
        match self {
            ListenerAction::Record(callsign) => ListenerActionView::Record(callsign@),
            ListenerAction::Serve => ListenerActionView::Serve,
            ListenerAction::Leave => ListenerActionView::Leave,
            ListenerAction::InvalidCallsign => ListenerActionView::InvalidCallsign,
            ListenerAction::GiveUp => ListenerActionView::GiveUp,
        }
    }
}

/// What an event of an AX.25 listener comes to: a caller is known by the callsign
/// of the station, and is served once the login has been recorded.
pub open spec fn ax25_heard(event: ListenerEventView) -> ListenerActionView {
    match event {
        ListenerEventView::Accepted(remote) => match parsed(remote) {
            Ok(callsign) => ListenerActionView::Record(callsign),
            Err(_) => ListenerActionView::InvalidCallsign,
        },
        ListenerEventView::AcceptFailed => ListenerActionView::GiveUp,
        ListenerEventView::Recorded(done) => if done {
            ListenerActionView::Serve
        } else {
            ListenerActionView::Leave
        },
    }
}

/// React to an event of an AX.25 listener.
pub fn run_agw_listener(event: ListenerEvent) -> (r: ListenerAction)
    ensures
        r@ == ax25_heard(event@),
{
    match event {
        ListenerEvent::Accepted(remote) => match Callsign::parse(remote.as_str()) {
            Ok(callsign) => ListenerAction::Record(callsign),
            Err(_) => ListenerAction::InvalidCallsign,
        },
        ListenerEvent::AcceptFailed => ListenerAction::GiveUp,
        ListenerEvent::Recorded(done) => {
            if done {
                ListenerAction::Serve
            } else {
                ListenerAction::Leave
            }
        },
    }
}

/// A radio that fails is tried again as long as the board runs, and never after
/// it has been shut down.
pub proof fn law_radio_is_retried_until_shutdown(state: RadioState, event: RadioEvent)
    ensures
        supervised(state, RadioEvent::ShutDown) == (RadioState::Stopped, RadioAction::Exit),
        supervised(RadioState::Stopped, event) == (RadioState::Stopped, RadioAction::Exit),
        state != RadioState::Stopped ==> supervised(
            supervised(state, RadioEvent::Failed).0,
            RadioEvent::Waited,
        ) == (RadioState::Listening, RadioAction::Listen),
{
}

/// A TCP caller logs in with what they have typed up to the end of the line, and
/// with the first text that is a callsign. Each other text counts as one attempt
/// and is answered with the reason; the third is the last. Nothing is written and
/// nothing counts while the line is not complete or after the caller has gone.
pub proof fn law_login_takes_the_typed_line(
    p: LoginProgress,
    text: Seq<char>,
    rest: Seq<u8>,
    ended: bool,
)
    requires
        p.failed >= 0,
        !crate::terminal::holds_terminator(text),
        encode_utf8(text).len() <= 16384,
    ensures
        ({
            let (left, outcome) = login_turn(
                p,
                Reading {
                    input: encode_utf8(text) + seq![10u8] + rest,
                    ended,
                    skip_optional_lf: false,
                },
            );
            &&& left.input == rest
            &&& parsed(text) is Ok ==> outcome.step == LoginStepView::Accepted(parsed(text)->Ok_0)
                && outcome.text.len() == 0 && outcome.failed == p.failed
            &&& parsed(text) is Err ==> {
                let refusal = "Invalid callsign: "@ + callsign_message(parsed(text)->Err_0)
                    + "\r\n"@;
                if p.failed < 2 {
                    &&& outcome.step is Retry
                    &&& outcome.failed == p.failed + 1
                    &&& outcome.text == refusal + "Callsign: "@
                } else {
                    &&& outcome.step is Refused
                    &&& outcome.text == refusal + "Too many invalid login attempts.\r\n"@
                }
            }
        }),
{
    crate::terminal::law_lines_arrive_in_turn(false, false, text, seq![10u8], rest, ended);
    let none = Seq::<u8>::empty();
    assert(none + encode_utf8(text) + seq![10u8] + rest =~= encode_utf8(text) + seq![10u8] + rest);
    assert(seq![10u8].drop_first() + rest =~= rest);
    reveal_strlit("\r\n");
    reveal_strlit("Too many invalid login attempts.");
    reveal_strlit("Too many invalid login attempts.\r\n");
    assert("Too many invalid login attempts."@ + "\r\n"@
        =~= "Too many invalid login attempts.\r\n"@);
}

/// A login waits for a complete line, and ends with the caller's input.
pub proof fn law_login_waits_for_the_line(p: LoginProgress, t: Reading)
    ensures
        ({
            let (left, outcome) = login_turn(p, t);
            &&& left == line_read(t).0
            &&& outcome.step is Wait <==> (line_read(t).1 matches Ok(Step::Pending))
            &&& outcome.step is Gone <==> (line_read(t).1 matches Ok(Step::Ready(None)))
            &&& outcome.step is Failed <==> line_read(t).1 is Err
            &&& line_read(t).1 matches Ok(Step::Ready(Some(typed))) ==> outcome == callsign_typed(
                p,
                typed,
            )
            &&& outcome.step is Wait || outcome.step is Gone || outcome.step is Failed
                ==> outcome.text.len() == 0 && outcome.failed == p.failed
        }),
{
}

/// A TCP caller is welcomed under the callsign of the board.
pub proof fn law_login_greeting(bbs: Seq<char>)
    ensures
        login_greeting(bbs) == "Welcome to "@ + bbs + " amateur radio BBS.\r\nCallsign: "@,
{
    reveal_strlit("\r\n");
    reveal_strlit(" amateur radio BBS.");
    reveal_strlit("Callsign: ");
    reveal_strlit(" amateur radio BBS.\r\nCallsign: ");
    assert(" amateur radio BBS."@ + "\r\n"@ + "Callsign: "@
        =~= " amateur radio BBS.\r\nCallsign: "@);
    assert(login_greeting(bbs) =~= "Welcome to "@ + bbs + (" amateur radio BBS."@ + "\r\n"@
        + "Callsign: "@));
}

/// Callers connect to other boards where the radio is AGW and they came over it,
/// or came over TCP and that is allowed; otherwise nobody does.
pub proof fn law_who_may_connect(radio: RadioView, entrance: Entrance)
    ensures
        radio is Mercury <==> session_radio(radio, entrance) is Mercury,
        session_radio(radio, entrance) == (SessionRadio::Agw { connect: true }) <==> radio is Agw
            && (entrance is Radio || entrance == (Entrance::Tcp { allow_connect: true })),
        session_radio(radio, entrance) == (SessionRadio::Agw { connect: false }) <==> radio is Agw
            && entrance == (Entrance::Tcp { allow_connect: false }),
{
}

/// A radio that has failed is left alone for five seconds.
pub proof fn law_radio_rests_for_five_seconds(state: RadioState)
    requires
        state != RadioState::Stopped,
    ensures
        supervised(state, RadioEvent::Failed) == (RadioState::Retrying, RadioAction::Wait(5000)),
{
}

/// An AX.25 caller is known by the callsign of the station, and is served where
/// the login has been recorded and nowhere else. Without a callsign, and when no
/// station can be accepted, the listener is given up.
pub proof fn law_stations_are_known_by_their_callsign(remote: Seq<char>)
    ensures
        parsed(remote) is Ok ==> ax25_heard(ListenerEventView::Accepted(remote))
            == ListenerActionView::Record(parsed(remote)->Ok_0),
        parsed(remote) is Err ==> ax25_heard(ListenerEventView::Accepted(remote))
            is InvalidCallsign,
        ax25_heard(ListenerEventView::AcceptFailed) is GiveUp,
        ax25_heard(ListenerEventView::Recorded(true)) is Serve,
        ax25_heard(ListenerEventView::Recorded(false)) is Leave,
{
}

/// What is told and what is to be done is handed over as it is held.
pub proof fn law_steps_are_what_is_held(
    text: String,
    done: bool,
    callsign: Callsign,
    error: TerminalError,
    n: u8,
    a: u16,
    b: u16,
)
    ensures
        LoginStep::Accepted(callsign)@ == LoginStepView::Accepted(callsign@),
        LoginStep::Failed(error)@ == LoginStepView::Failed(error),
        ListenerEvent::Accepted(text)@ == ListenerEventView::Accepted(text@),
        ListenerEvent::Recorded(done)@ == ListenerEventView::Recorded(done),
        ListenerAction::Record(callsign)@ == ListenerActionView::Record(callsign@),
        (RadioConfig::Agw { addr: text, port: n, connect_via: done })@ == (RadioView::Agw {
            addr: text@,
            port: n,
            connect_via: done,
        }),
        (RadioConfig::Mercury { host: text, control_port: a, data_port: b })@ == (
        RadioView::Mercury { host: text@, control_port: a, data_port: b }),
{
}

/// The radio is the one that was asked for, with its own addresses and ports. With
/// Mercury no outgoing connections can be asked for.
pub proof fn law_radios_are_set_up_as_asked(options: RadioOptions)
    ensures
        options.radio == RadioKind::Agw ==> radio_asked(options) is Ok && radio_asked(options)->Ok_0
            == (RadioView::Agw {
            addr: options.agw_addr@,
            port: options.agw_port,
            connect_via: options.connect_via,
        }),
        options.radio == RadioKind::Mercury ==> (radio_asked(options) is Ok <==> !(
        options.connect_via || options.allow_tcp_connect)),
        options.radio == RadioKind::Mercury && radio_asked(options) is Ok ==> radio_asked(
            options,
        )->Ok_0 == (RadioView::Mercury {
            host: options.mercury_host@,
            control_port: options.mercury_control_port,
            data_port: options.mercury_data_port,
        }),
        options.radio == RadioKind::Mercury && options.connect_via ==> radio_asked(options)->Err_0
            == ConfigError::ConnectVia,
{
}

} // verus!
