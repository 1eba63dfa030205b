//! Incoming Mercury ARQ sessions on one persistent control/data socket pair.

use mercury_hf::Callsign as ModemCallsign;
use vstd::prelude::*;
use vstd::string::*;

use crate::callsign::{is_callsign, is_callsign_char, parsed, Callsign, CallsignFault};

verus! {

/// How long the modem may take to end a radio connection.
pub const DISCONNECT_TIMEOUT_MILLIS: u64 = 60000;

/// The callsign of the `mercury-hf` crate.
#[verifier::external_type_specification]
#[verifier::external_body]
pub struct ExModemCallsign(ModemCallsign);

/// The error of the `mercury-hf` crate.
#[verifier::external_type_specification]
#[verifier::external_body]
pub struct ExModemError(mercury_hf::Error);

/// The callsign that `mercury_hf::Callsign::new` makes of a text that it takes.
pub uninterp spec fn modem_call(text: Seq<char>) -> ModemCallsign;

/// The texts that a Mercury modem takes for a callsign: one to fifteen visible
/// ASCII characters.
pub open spec fn modem_accepts(text: Seq<char>) -> bool {
    1 <= text.len() <= 15 && forall|i: int|
        0 <= i < text.len() ==> '!' <= #[trigger] text[i] <= '~'
}

/// `mercury_hf::Callsign::new`: it succeeds on the texts of `modem_accepts` and on
/// no others, and the callsign depends on the text alone.
#[verifier::external_body]
fn new_modem_call(text: &str) -> (r: Result<ModemCallsign, mercury_hf::Error>)
    ensures
        r is Ok <==> modem_accepts(text@),
        r matches Ok(callsign) ==> callsign == modem_call(text@),
{
    ModemCallsign::new(text)
}

/// A callsign as a Mercury modem takes it. There is one for every callsign.
pub fn to_modem_call(callsign: &Callsign) -> (r: Result<ModemCallsign, mercury_hf::Error>)
    ensures
        r is Ok,
        r->Ok_0 == modem_call(callsign@),
{
    let text: &str = callsign.as_str();
    proof {
        assert(is_callsign(text@));
        assert forall|i: int| 0 <= i < text@.len() implies '!' <= #[trigger] text@[i] <= '~' by {
            assert(is_callsign_char(text@[i]));
        }
    }
    new_modem_call(text)
}

/// What the modem or a session tells.
#[derive(Debug)]
pub enum LinkEvent {
    /// A radio caller has connected.
    Connected(String),
    /// The radio connection has ended.
    Disconnected,
    /// Something else has happened on the control connection.
    Other,
    /// Control events have been lost.
    EventsLost,
    /// The control connection has been closed.
    ControlClosed,
    /// That many bytes have been read of the data connection; none stand for its
    /// end.
    Data(usize),
    /// The data connection has failed.
    DataFailed,
    /// The session is over: in good order or not.
    SessionEnded(bool),
    /// The modem has not ended the radio connection in time.
    TimedOut,
}

/// `LinkEvent` as a mathematical value.
#[verifier::ext_equal]
pub enum LinkEventView {
    Connected(Seq<char>),
    Disconnected,
    Other,
    EventsLost,
    ControlClosed,
    Data(usize),
    DataFailed,
    SessionEnded(bool),
    TimedOut,
}

impl View for LinkEvent {
    type V = LinkEventView;

    open spec fn view(&self) -> LinkEventView {
        match self {
            LinkEvent::Connected(source) => LinkEventView::Connected(source@),
            LinkEvent::Disconnected => LinkEventView::Disconnected,
            LinkEvent::Other => LinkEventView::Other,
            LinkEvent::EventsLost => LinkEventView::EventsLost,
            LinkEvent::ControlClosed => LinkEventView::ControlClosed,
            LinkEvent::Data(n) => LinkEventView::Data(*n),
            LinkEvent::DataFailed => LinkEventView::DataFailed,
            LinkEvent::SessionEnded(well) => LinkEventView::SessionEnded(*well),
            LinkEvent::TimedOut => LinkEventView::TimedOut,
        }
    }
}

/// Why the connections to the modem have to be made anew.
#[derive(Clone, Copy, Debug, Eq, PartialEq, Structural)]
pub enum LinkError {
    EventsLost,
    ControlClosed,
    DataClosedWhileIdle,
    DataClosed,
    DataClosedDuringDisconnect,
    DataFailed,
    Overlapping,
    ConnectedDuringDisconnect,
    DisconnectTimedOut,
    SessionFailed,
}

impl LinkError {
    /// The words in which the failure is reported.
    pub fn message(&self) -> (r: &'static str)
        ensures
            r@ == (match self {
                LinkError::EventsLost => "Mercury control events lost"@,
                LinkError::ControlClosed => "Mercury control connection closed"@,
                LinkError::DataClosedWhileIdle => "Mercury data connection closed while idle"@,
                LinkError::DataClosed => "Mercury data connection closed"@,
                LinkError::DataClosedDuringDisconnect =>
                    "Mercury data connection closed during disconnect"@,
                LinkError::DataFailed => "Mercury data connection failed"@,
                LinkError::Overlapping => "unexpected overlapping Mercury connection"@,
                LinkError::ConnectedDuringDisconnect =>
                    "Mercury connected before disconnect completed"@,
                LinkError::DisconnectTimedOut => "Mercury radio disconnect timed out"@,
                LinkError::SessionFailed => "Mercury session failed"@,
            }),
    {
        match self {
            LinkError::EventsLost => "Mercury control events lost",
            LinkError::ControlClosed => "Mercury control connection closed",
            LinkError::DataClosedWhileIdle => "Mercury data connection closed while idle",
            LinkError::DataClosed => "Mercury data connection closed",
            LinkError::DataClosedDuringDisconnect => {
                "Mercury data connection closed during disconnect"
            },
            LinkError::DataFailed => "Mercury data connection failed",
            LinkError::Overlapping => "unexpected overlapping Mercury connection",
            LinkError::ConnectedDuringDisconnect => "Mercury connected before disconnect completed",
            LinkError::DisconnectTimedOut => "Mercury radio disconnect timed out",
            LinkError::SessionFailed => "Mercury session failed",
        }
    }
}

/// What has to be done about the modem.
#[derive(Debug)]
pub enum LinkAction {
    /// Wait; data that has been read belongs to nobody.
    Wait,
    /// Hand the data that has been read to the session.
    Deliver,
    /// Record the login of a caller, and serve a new session.
    Serve(Callsign),
    /// Give the session up: the caller has gone.
    StopServing,
    /// Tell the modem to end the radio connection, within the time limit.
    Disconnect,
    /// Close both connections, and make them anew.
    Reset(LinkError),
}

/// `LinkAction` as a mathematical value.
#[verifier::ext_equal]
pub enum LinkActionView {
    Wait,
    Deliver,
    Serve(Seq<char>),
    StopServing,
    Disconnect,
    Reset(LinkError),
}

impl View for LinkAction {
    type V = LinkActionView;

    open spec fn view(&self) -> LinkActionView {
        match self {
            LinkAction::Wait => LinkActionView::Wait,
            LinkAction::Deliver => LinkActionView::Deliver,
            LinkAction::Serve(callsign) => LinkActionView::Serve(callsign@),
            LinkAction::StopServing => LinkActionView::StopServing,
            LinkAction::Disconnect => LinkActionView::Disconnect,
            LinkAction::Reset(error) => LinkActionView::Reset(*error),
        }
    }
}

/// What the radio is doing.
#[derive(Clone, Copy, Debug, Eq, PartialEq, Structural)]
pub enum LinkState {
    /// Nobody is connected.
    Idle,
    /// A caller is served.
    Serving,
    /// The radio connection is being ended.
    Disconnecting,
    /// The connections to the modem are gone.
    Down,
}

/// What an event comes to while nobody is connected: a caller with a callsign is
/// served, any other is turned away.
pub open spec fn listened(event: LinkEventView) -> (LinkState, LinkActionView) {
    match event {
        LinkEventView::Connected(source) => match parsed(source) {
            Ok(callsign) => (LinkState::Serving, LinkActionView::Serve(callsign)),
            Err(_) => (LinkState::Disconnecting, LinkActionView::Disconnect),
        },
        LinkEventView::Data(n) => if n == 0 {
            (LinkState::Down, LinkActionView::Reset(LinkError::DataClosedWhileIdle))
        } else {
            (LinkState::Idle, LinkActionView::Wait)
        },
        _ => (LinkState::Idle, LinkActionView::Wait),
    }
}

/// What an event comes to while a caller is served.
pub open spec fn served(event: LinkEventView) -> (LinkState, LinkActionView) {
    match event {
        LinkEventView::Disconnected => (LinkState::Idle, LinkActionView::StopServing),
        LinkEventView::Connected(_) => (
            LinkState::Down,
            LinkActionView::Reset(LinkError::Overlapping),
        ),
        LinkEventView::SessionEnded(well) => if well {
            (LinkState::Disconnecting, LinkActionView::Disconnect)
        } else {
            (LinkState::Down, LinkActionView::Reset(LinkError::SessionFailed))
        },
        LinkEventView::Data(n) => if n == 0 {
            (LinkState::Down, LinkActionView::Reset(LinkError::DataClosed))
        } else {
            (LinkState::Serving, LinkActionView::Deliver)
        },
        _ => (LinkState::Serving, LinkActionView::Wait),
    }
}

/// What an event comes to while the radio connection is being ended.
pub open spec fn disconnected(event: LinkEventView) -> (LinkState, LinkActionView) {
    match event {
        LinkEventView::Disconnected => (LinkState::Idle, LinkActionView::Wait),
        LinkEventView::Connected(_) => (
            LinkState::Down,
            LinkActionView::Reset(LinkError::ConnectedDuringDisconnect),
        ),
        LinkEventView::Data(n) => if n == 0 {
            (LinkState::Down, LinkActionView::Reset(LinkError::DataClosedDuringDisconnect))
        } else {
            (LinkState::Disconnecting, LinkActionView::Wait)
        },
        LinkEventView::TimedOut => (
            LinkState::Down,
            LinkActionView::Reset(LinkError::DisconnectTimedOut),
        ),
        _ => (LinkState::Disconnecting, LinkActionView::Wait),
    }
}

/// What an event comes to. A connection to the modem that fails takes the other
/// with it.
pub open spec fn linked(state: LinkState, event: LinkEventView) -> (LinkState, LinkActionView) {
    match (state, event) {
        (LinkState::Down, _) => (LinkState::Down, LinkActionView::Wait),
        (_, LinkEventView::EventsLost) => (
            LinkState::Down,
            LinkActionView::Reset(LinkError::EventsLost),
        ),
        (_, LinkEventView::ControlClosed) => (
            LinkState::Down,
            LinkActionView::Reset(LinkError::ControlClosed),
        ),
        (_, LinkEventView::DataFailed) => (
            LinkState::Down,
            LinkActionView::Reset(LinkError::DataFailed),
        ),
        (LinkState::Idle, _) => listened(event),
        (LinkState::Serving, _) => served(event),
        (LinkState::Disconnecting, _) => disconnected(event),
    }
}

/// The radio link over a Mercury modem.
#[derive(Debug)]
pub struct MercuryLink {
    state: LinkState,
}

impl View for MercuryLink {
    type V = LinkState;

    closed spec fn view(&self) -> LinkState {
        self.state
    }
}

impl MercuryLink {
    /// A link on which nobody is connected.
    pub fn new() -> (r: MercuryLink)
        ensures
            r@ == LinkState::Idle,
    {
        MercuryLink { state: LinkState::Idle }
    }

    /// What the radio is doing.
    pub fn state(&self) -> (r: LinkState)
        ensures
            r == self@,
    {
        self.state
    }

    /// React while nobody is connected.
    fn listen(&mut self, event: LinkEvent) -> (r: LinkAction)
        requires
            old(self)@ == LinkState::Idle,
        ensures
            (final(self)@, r@) == listened(event@),
    {
        match event {
            LinkEvent::Connected(source) => match Callsign::parse(source.as_str()) {
                Ok(callsign) => {
                    self.state = LinkState::Serving;
                    LinkAction::Serve(callsign)
                },
                Err(_) => {
                    self.state = LinkState::Disconnecting;
                    LinkAction::Disconnect
                },
            },
            LinkEvent::Data(n) => {
                if n == 0 {
                    self.reset(LinkError::DataClosedWhileIdle)
                } else {
                    LinkAction::Wait
                }
            },
            _ => LinkAction::Wait,
        }
    }

    /// React while a caller is served.
    fn serve(&mut self, event: LinkEvent) -> (r: LinkAction)
        requires
            old(self)@ == LinkState::Serving,
        ensures
            (final(self)@, r@) == served(event@),
    {
        match event {
            LinkEvent::Disconnected => {
                self.state = LinkState::Idle;
                LinkAction::StopServing
            },
            LinkEvent::Connected(_) => self.reset(LinkError::Overlapping),
            LinkEvent::SessionEnded(well) => {
                if well {
                    self.state = LinkState::Disconnecting;
                    LinkAction::Disconnect
                } else {
                    self.reset(LinkError::SessionFailed)
                }
            },
            LinkEvent::Data(n) => {
                if n == 0 {
                    self.reset(LinkError::DataClosed)
                } else {
                    LinkAction::Deliver
                }
            },
            _ => LinkAction::Wait,
        }
    }

    /// React while the radio connection is being ended.
    fn disconnect(&mut self, event: LinkEvent) -> (r: LinkAction)
        requires
            old(self)@ == LinkState::Disconnecting,
        ensures
            (final(self)@, r@) == disconnected(event@),
    {
        match event {
            LinkEvent::Disconnected => {
                self.state = LinkState::Idle;
                LinkAction::Wait
            },
            LinkEvent::Connected(_) => self.reset(LinkError::ConnectedDuringDisconnect),
            LinkEvent::Data(n) => {
                if n == 0 {
                    self.reset(LinkError::DataClosedDuringDisconnect)
                } else {
                    LinkAction::Wait
                }
            },
            LinkEvent::TimedOut => self.reset(LinkError::DisconnectTimedOut),
            _ => LinkAction::Wait,
        }
    }

    /// Give the connections up.
    fn reset(&mut self, error: LinkError) -> (r: LinkAction)
        ensures
            final(self)@ == LinkState::Down,
            r@ == LinkActionView::Reset(error),
    {
        self.state = LinkState::Down;
        LinkAction::Reset(error)
    }

    /// React to an event.
    pub fn on_event(&mut self, event: LinkEvent) -> (r: LinkAction)
        ensures
            (final(self)@, r@) == linked(old(self)@, event@),
    {
        if let LinkState::Down = self.state {
            return LinkAction::Wait;
        }
        match event {
            LinkEvent::EventsLost => self.reset(LinkError::EventsLost),
            LinkEvent::ControlClosed => self.reset(LinkError::ControlClosed),
            LinkEvent::DataFailed => self.reset(LinkError::DataFailed),
            _ => match self.state {
                LinkState::Idle => self.listen(event),
                LinkState::Serving => self.serve(event),
                LinkState::Disconnecting => self.disconnect(event),
                LinkState::Down => LinkAction::Wait,
            },
        }
    }
}

/// Data reaches a session only while its caller is connected: what was sent
/// before or after belongs to nobody.
pub proof fn law_data_belongs_to_the_caller(state: LinkState, event: LinkEventView)
    ensures
        linked(state, event).1 is Deliver <==> state == LinkState::Serving && (event
            matches LinkEventView::Data(n) && n > 0),
{
}

/// A session is served exactly when a caller with a callsign connects to an idle
/// modem, and under that callsign.
pub proof fn law_only_callsigns_are_served(state: LinkState, event: LinkEventView)
    ensures
        linked(state, event).1 is Serve <==> state == LinkState::Idle && (event
            matches LinkEventView::Connected(source) && parsed(source) is Ok),
        linked(state, event).1 matches LinkActionView::Serve(callsign) ==> event
            matches LinkEventView::Connected(source) && parsed(source) == Ok::<
            Seq<char>,
            CallsignFault,
        >(callsign),
{
}

/// A caller who has not gone is disconnected before the next is served: from a
/// served caller the way back to an idle modem leads over the end of the radio
/// connection.
pub proof fn law_callers_are_served_one_by_one(state: LinkState, event: LinkEventView)
    requires
        state == LinkState::Serving || state == LinkState::Disconnecting,
    ensures
        linked(state, event).0 == LinkState::Idle <==> event is Disconnected,
        !(linked(state, event).1 is Serve),
{
}

/// A failure of either connection takes both down, whatever the modem is doing.
pub proof fn law_connections_fail_together(state: LinkState, event: LinkEventView)
    requires
        state != LinkState::Down,
        event is EventsLost || event is ControlClosed || event is DataFailed || event
            == LinkEventView::Data(0),
    ensures
        linked(state, event).0 == LinkState::Down,
        linked(state, event).1 is Reset,
{
}

/// An idle modem waits for a caller. One whose callsign cannot be used is
/// disconnected; nothing else that the modem tells changes anything.
pub proof fn law_an_idle_modem_waits(event: LinkEventView)
    ensures
        event matches LinkEventView::Connected(source) ==> (parsed(source) is Err ==> linked(
            LinkState::Idle,
            event,
        ) == (LinkState::Disconnecting, LinkActionView::Disconnect)),
        event matches LinkEventView::Connected(source) ==> (parsed(source) is Ok ==> linked(
            LinkState::Idle,
            event,
        ) == (LinkState::Serving, LinkActionView::Serve(parsed(source)->Ok_0))),
        event is Disconnected || event is Other || event is SessionEnded || event is TimedOut || (
        event is Data && event != LinkEventView::Data(0)) ==> linked(LinkState::Idle, event) == (
            LinkState::Idle,
            LinkActionView::Wait,
        ),
{
}

/// A caller is served until they go, which ends the session, or until the session
/// ends, which ends the radio connection. A session that fails and a second
/// caller take the connections down; anything else changes nothing.
pub proof fn law_a_caller_is_served_to_the_end(event: LinkEventView)
    ensures
        linked(LinkState::Serving, LinkEventView::Disconnected) == (
            LinkState::Idle,
            LinkActionView::StopServing,
        ),
        linked(LinkState::Serving, LinkEventView::SessionEnded(true)) == (
            LinkState::Disconnecting,
            LinkActionView::Disconnect,
        ),
        linked(LinkState::Serving, LinkEventView::SessionEnded(false)) == (
            LinkState::Down,
            LinkActionView::Reset(LinkError::SessionFailed),
        ),
        event is Connected ==> linked(LinkState::Serving, event) == (
            LinkState::Down,
            LinkActionView::Reset(LinkError::Overlapping),
        ),
        event is Data && event != LinkEventView::Data(0) ==> linked(LinkState::Serving, event) == (
            LinkState::Serving,
            LinkActionView::Deliver,
        ),
        event is Other || event is TimedOut ==> linked(LinkState::Serving, event) == (
            LinkState::Serving,
            LinkActionView::Wait,
        ),
{
}

/// While a radio connection is being ended, its end is waited for, and whatever
/// still arrives is dropped. Time running out and a new caller take the
/// connections down, and what is down stays down.
pub proof fn law_a_connection_is_ended(event: LinkEventView)
    ensures
        linked(LinkState::Disconnecting, LinkEventView::Disconnected) == (
            LinkState::Idle,
            LinkActionView::Wait,
        ),
        linked(LinkState::Disconnecting, LinkEventView::TimedOut) == (
            LinkState::Down,
            LinkActionView::Reset(LinkError::DisconnectTimedOut),
        ),
        event is Connected ==> linked(LinkState::Disconnecting, event) == (
            LinkState::Down,
            LinkActionView::Reset(LinkError::ConnectedDuringDisconnect),
        ),
        event is Other || event is SessionEnded || (event is Data && event
            != LinkEventView::Data(0)) ==> linked(LinkState::Disconnecting, event) == (
            LinkState::Disconnecting,
            LinkActionView::Wait,
        ),
        linked(LinkState::Down, event) == (LinkState::Down, LinkActionView::Wait),
{
}

/// What the modem tells and what is to be done is handed over as it is held. A
/// radio connection has a minute to end.
pub proof fn law_links_are_what_is_held(
    source: String,
    n: usize,
    well: bool,
    callsign: Callsign,
    error: LinkError,
)
    ensures
        LinkEvent::Connected(source)@ == LinkEventView::Connected(source@),
        LinkEvent::Data(n)@ == LinkEventView::Data(n),
        LinkEvent::SessionEnded(well)@ == LinkEventView::SessionEnded(well),
        LinkAction::Serve(callsign)@ == LinkActionView::Serve(callsign@),
        LinkAction::Reset(error)@ == LinkActionView::Reset(error),
        DISCONNECT_TIMEOUT_MILLIS == 60 * 1000,
{
}

} // verus!
