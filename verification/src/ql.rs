use crate::errors::ApplicationError;
use vstd::prelude::*;

verus! {

/// Where a console session stands. Connecting is what comes before there is
/// a session.
#[derive(Debug, Clone, Copy, PartialEq, Eq)]
pub enum QLState {
    Active,
    Closed,
}

/// The session with the console: it hands the console's lines to the hub
/// and the hub's lines to the console, until either side ends or fails.
pub struct QL {
    pub state: QLState,
}

/// What reaches the console session.
#[derive(Debug, Clone, PartialEq, Eq)]
pub enum QLEvent {
    /// The console sent a line.
    Line(String),
    /// What the console sent is no line of text.
    LineError(String),
    /// The console closed the connection.
    StreamEnded,
    /// The hub handed over a line for the console.
    Message(String),
    /// Nothing more will come from the hub.
    ChannelClosed,
    /// A line could not be handed to the hub.
    SendFailed(String),
    /// A line could not be written to the console.
    WriteFailed(String),
}

/// What the console session asks for in answer to an event.
#[derive(Debug, Clone, PartialEq, Eq)]
pub enum QLAction {
    /// Hand the line to the hub.
    Forward(String),
    /// Write the line to the console, ended as the line protocol ends a
    /// line.
    Write(String),
    /// The session has ended, for this reason.
    Close(ApplicationError),
    /// Nothing: the session ended before.
    Idle,
}

/// What the session reports when the console closes the connection.
pub open spec fn stream_ended() -> Seq<char> {
    "console stream ended"@
}

/// What the session reports when the hub is gone.
pub open spec fn channel_closed() -> Seq<char> {
    "hub channel closed"@
}

/// What one event does to an active session: the state it leaves the session
/// in, and whether it asks to forward a line, to write one, or to close.
pub open spec fn ql_step(event: QLEvent, state: QLState, action: QLAction) -> bool {
    match event {
        QLEvent::Line(line) => state == QLState::Active && action == QLAction::Forward(line),
        QLEvent::Message(line) => state == QLState::Active && action == QLAction::Write(line),
        QLEvent::LineError(detail) => state == QLState::Closed && action == QLAction::Close(
            ApplicationError::LinesCodecError(detail),
        ),
        QLEvent::WriteFailed(detail) => state == QLState::Closed && action == QLAction::Close(
            ApplicationError::LinesCodecError(detail),
        ),
        QLEvent::SendFailed(detail) => state == QLState::Closed && action == QLAction::Close(
            ApplicationError::SendError(detail),
        ),
        QLEvent::StreamEnded => state == QLState::Closed && match action {
            QLAction::Close(ApplicationError::IoError(detail)) => detail@ == stream_ended(),
            _ => false,
        },
        QLEvent::ChannelClosed => state == QLState::Closed && match action {
            QLAction::Close(ApplicationError::SendError(detail)) => detail@ == channel_closed(),
            _ => false,
        },
    }
}

impl QL {
    /// Starts the session once the connection to the console has been
    /// tried: an active session where it was opened, and the error where it
    /// was not.
    pub fn connect(opened: Result<(), String>) -> (session: Result<QL, ApplicationError>)
        ensures
            match opened {
                Ok(_) => session == Ok::<QL, ApplicationError>(QL { state: QLState::Active }),
                Err(detail) => session == Err::<QL, ApplicationError>(
                    ApplicationError::IoError(detail),
                ),
            },
    {
        match opened {
            Ok(_) => Ok(QL { state: QLState::Active }),
            Err(detail) => Err(ApplicationError::IoError(detail)),
        }
    }

    /// Takes one event and says what is to be done. A session that has
    /// closed stays closed and asks for nothing.
    pub fn process(&mut self, event: QLEvent) -> (action: QLAction)
        ensures
            old(self).state == QLState::Closed ==> final(self).state == QLState::Closed && action
                == QLAction::Idle,
            old(self).state == QLState::Active ==> ql_step(event, final(self).state, action),
    {
        match self.state {
            QLState::Closed => QLAction::Idle,
            QLState::Active => match event {
                QLEvent::Line(line) => QLAction::Forward(line),
                QLEvent::Message(line) => QLAction::Write(line),
                QLEvent::LineError(detail) => {
                    self.state = QLState::Closed;
                    QLAction::Close(ApplicationError::LinesCodecError(detail))
                },
                QLEvent::WriteFailed(detail) => {
                    self.state = QLState::Closed;
                    QLAction::Close(ApplicationError::LinesCodecError(detail))
                },
                QLEvent::SendFailed(detail) => {
                    self.state = QLState::Closed;
                    QLAction::Close(ApplicationError::SendError(detail))
                },
                QLEvent::StreamEnded => {
                    self.state = QLState::Closed;
                    QLAction::Close(
                        ApplicationError::IoError(String::from_str("console stream ended")),
                    )
                },
                QLEvent::ChannelClosed => {
                    self.state = QLState::Closed;
                    QLAction::Close(
                        ApplicationError::SendError(String::from_str("hub channel closed")),
                    )
                },
            },
        }
    }
}

} // verus!
