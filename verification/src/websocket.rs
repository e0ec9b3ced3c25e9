use crate::formats::{Json1, Raw, TranslationError, TransportFormat, text_result};
use crate::hub::ClientState;
use vstd::prelude::*;

verus! {

/// The formats that a client can ask for, each under the name of its
/// WebSocket subprotocol.
#[derive(Debug, Clone, Copy, PartialEq, Eq)]
pub enum Protocol {
    Raw,
    Json1,
}

/// Why a handshake is turned down.
#[derive(Debug, Clone, Copy, PartialEq, Eq)]
pub enum HandshakeError {
    /// The request names no subprotocol.
    Missing,
    /// The request names something else than one of the two subprotocols.
    Unsupported,
}

/// The subprotocol of the console's own lines.
pub open spec fn raw_name() -> Seq<char> {
    "ql-raw"@
}

/// The subprotocol of the JSON documents.
pub open spec fn json1_name() -> Seq<char> {
    "ql-json1"@
}

/// What a handshake that offers `offer` comes to.
pub open spec fn negotiated(offer: Option<Seq<char>>) -> Result<Protocol, HandshakeError> {
    match offer {
        None => Err(HandshakeError::Missing),
        Some(name) => if name == raw_name() {
            Ok(Protocol::Raw)
        } else if name == json1_name() {
            Ok(Protocol::Json1)
        } else {
            Err(HandshakeError::Unsupported)
        },
    }
}

/// An offer by view.
pub open spec fn offer_view(offer: Option<&str>) -> Option<Seq<char>> {
    match offer {
        Some(name) => Some(name@),
        None => None,
    }
}

/// Decides a handshake by the subprotocol that the request offers.
pub fn negotiate(offer: Option<&str>) -> (outcome: Result<Protocol, HandshakeError>)
    ensures
        outcome == negotiated(offer_view(offer)),
{
    match offer {
        None => Err(HandshakeError::Missing),
        Some(name) => {
            let name = String::from_str(name);
            if name == String::from_str("ql-raw") {
                Ok(Protocol::Raw)
            } else if name == String::from_str("ql-json1") {
                Ok(Protocol::Json1)
            } else {
                Err(HandshakeError::Unsupported)
            }
        },
    }
}

impl HandshakeError {
    /// What the client is told.
    pub fn message(&self) -> (text: &'static str)
        ensures
            text@ == match *self {
                HandshakeError::Missing => "Websocket subprotocol missing"@,
                HandshakeError::Unsupported => "Unsupported protocol"@,
            },
    {
        match self {
            HandshakeError::Missing => "Websocket subprotocol missing",
            HandshakeError::Unsupported => "Unsupported protocol",
        }
    }
}

impl Protocol {
    /// The name of the subprotocol.
    pub fn name(&self) -> (name: &'static str)
        ensures
            negotiated(Some(name@)) == Ok::<Protocol, HandshakeError>(*self),
    {
        proof {
            reveal_strlit("ql-raw");
            reveal_strlit("ql-json1");
        }
        match self {
            Protocol::Raw => "ql-raw",
            Protocol::Json1 => {
                assert("ql-json1"@.len() != "ql-raw"@.len());
                "ql-json1"
            },
        }
    }

    /// What a client of this format is sent for a line of the console.
    pub open spec fn from_console(&self, raw: Seq<char>) -> Seq<char> {
        match *self {
            Protocol::Raw => (Raw {}).from_console(raw),
            Protocol::Json1 => (Json1 {}).from_console(raw),
        }
    }

    /// What the console is sent for a text of a client of this format.
    pub open spec fn to_console(&self, text: Seq<char>) -> Result<Seq<char>, TranslationError> {
        match *self {
            Protocol::Raw => (Raw {}).to_console(text),
            Protocol::Json1 => (Json1 {}).to_console(text),
        }
    }

    /// Writes a line of the console for a client of this format.
    pub fn from_ql(&self, raw: String) -> (out: String)
        ensures
            out@ == self.from_console(raw@),
    {
        match self {
            Protocol::Raw => (Raw {}).from_ql(raw),
            Protocol::Json1 => (Json1 {}).from_ql(raw),
        }
    }

    /// Writes a text of a client of this format for the console.
    pub fn to_ql(&self, text: String) -> (out: Result<String, TranslationError>)
        ensures
            text_result(out) == self.to_console(text@),
    {
        match self {
            Protocol::Raw => (Raw {}).to_ql(text),
            Protocol::Json1 => (Json1 {}).to_ql(text),
        }
    }
}

/// The session with one client, from the handshake that it passed until it
/// closes.
#[derive(Debug, Clone, Copy, PartialEq, Eq)]
pub struct Session {
    /// The format that the handshake settled.
    pub protocol: Protocol,
    /// The client's place among the hub's clients.
    pub client: usize,
    /// Whether the session is active; it is closed otherwise.
    pub active: bool,
}

/// What reaches a client session.
#[derive(Debug, Clone, PartialEq, Eq)]
pub enum SessionEvent {
    /// The client sent a frame of text.
    Frame(String),
    /// The client sent a frame that is no text.
    NonText,
    /// The WebSocket closed or failed.
    SocketClosed,
    /// The hub handed over a line of the console.
    Message(String),
    /// Nothing more will come from the hub.
    HubClosed,
    /// A line could not be handed to the hub.
    SubmitFailed,
    /// A frame could not be sent to the client.
    SendFailed,
}

/// What a client session asks for in answer to an event.
#[derive(Debug, Clone, PartialEq, Eq)]
pub enum SessionAction {
    /// Hand the line to the hub, for the console.
    Submit(String),
    /// Send the text to the client as one frame, also where it is empty.
    Send(String),
    /// Report that the client's text was dropped, and go on.
    Report(TranslationError),
    /// The session has ended.
    Close,
    /// Nothing: the session ended before.
    Idle,
}

/// A `SessionAction` with its texts as sequences.
pub enum SessionActionView {
    Submit(Seq<char>),
    Send(Seq<char>),
    Report(TranslationError),
    Close,
    Idle,
}

impl View for SessionAction {
    type V = SessionActionView;

    open spec fn view(&self) -> SessionActionView {
        match *self {
            SessionAction::Submit(line) => SessionActionView::Submit(line@),
            SessionAction::Send(text) => SessionActionView::Send(text@),
            SessionAction::Report(error) => SessionActionView::Report(error),
            SessionAction::Close => SessionActionView::Close,
            SessionAction::Idle => SessionActionView::Idle,
        }
    }
}

/// What one event does to a session, and what the session asks for.
pub open spec fn session_step(session: Session, event: SessionEvent) -> (
    Session,
    SessionActionView,
) {
    if !session.active {
        (session, SessionActionView::Idle)
    } else {
        match event {
            SessionEvent::Frame(text) => match session.protocol.to_console(text@) {
                Ok(line) => (session, SessionActionView::Submit(line)),
                Err(error) => (session, SessionActionView::Report(error)),
            },
            SessionEvent::Message(line) => (
                session,
                SessionActionView::Send(session.protocol.from_console(line@)),
            ),
            _ => (Session { active: false, ..session }, SessionActionView::Close),
        }
    }
}

impl Session {
    /// Decides a handshake and, where it passes, registers the client with
    /// the hub's clients. A handshake that is turned down leaves the
    /// clients as they are.
    pub fn open(offer: Option<&str>, clients: &mut ClientState) -> (session: Result<
        Session,
        HandshakeError,
    >)
        ensures
            match session {
                Ok(s) => negotiated(offer_view(offer)) == Ok::<Protocol, HandshakeError>(
                    s.protocol,
                ) && s.client == old(clients)@.len() && s.active && final(clients)@ == old(
                    clients,
                )@.push(true),
                Err(error) => negotiated(offer_view(offer)) == Err::<Protocol, HandshakeError>(
                    error,
                ) && final(clients)@ == old(clients)@,
            },
    {
        match negotiate(offer) {
            Ok(protocol) => {
                let client: usize = clients.add_client();
                Ok(Session { protocol, client, active: true })
            },
            Err(error) => Err(error),
        }
    }

    /// Takes one event and says what is to be done.
    pub fn process(&mut self, event: SessionEvent) -> (action: SessionAction)
        ensures
            (*final(self), action@) == session_step(*old(self), event),
    {
        if !self.active {
            return SessionAction::Idle;
        }
        match event {
            SessionEvent::Frame(text) => match self.protocol.to_ql(text) {
                Ok(line) => SessionAction::Submit(line),
                Err(error) => SessionAction::Report(error),
            },
            SessionEvent::Message(line) => SessionAction::Send(self.protocol.from_ql(line)),
            _ => {
                self.active = false;
                SessionAction::Close
            },
        }
    }

    /// Ends the service of the session's client: the hub hands it nothing
    /// from now on.
    pub fn release(self, clients: &mut ClientState)
        ensures
            final(clients)@ == if self.client < old(clients)@.len() {
                old(clients)@.update(self.client as int, false)
            } else {
                old(clients)@
            },
    {
        clients.release(self.client);
    }
}

} // verus!
