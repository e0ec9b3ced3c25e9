use vstd::prelude::*;

verus! {

/// The level of one channel's fader, on the console's raw scale, on the
/// display scale, or both, with the text the console shows beside it.
#[derive(Debug, Clone, PartialEq, Eq)]
pub struct Fader {
    pub position: Option<u8>,
    pub value: Option<i16>,
    pub comment: Option<String>,
}

/// What a client is told of one channel, or asks of it: the fader's level
/// or whether the channel is on.
#[derive(Debug, Clone, PartialEq, Eq)]
pub struct Json1Message {
    pub channel: u8,
    pub fader: Option<Fader>,
    pub state: Option<bool>,
}

/// A `Fader` with its comment as a sequence of characters.
pub struct FaderView {
    pub position: Option<u8>,
    pub value: Option<i16>,
    pub comment: Option<Seq<char>>,
}

/// A `Json1Message` with its fader by view.
pub struct Json1MessageView {
    pub channel: u8,
    pub fader: Option<FaderView>,
    pub state: Option<bool>,
}

impl View for Fader {
    type V = FaderView;

    open spec fn view(&self) -> FaderView {
        FaderView {
            position: self.position,
            value: self.value,
            comment: match self.comment {
                Some(text) => Some(text@),
                None => None,
            },
        }
    }
}

impl View for Json1Message {
    type V = Json1MessageView;

    open spec fn view(&self) -> Json1MessageView {
        Json1MessageView {
            channel: self.channel,
            fader: match self.fader {
                Some(fader) => Some(fader@),
                None => None,
            },
            state: self.state,
        }
    }
}

/// The view of a message that may be absent.
pub open spec fn message_view(message: Option<Json1Message>) -> Option<Json1MessageView> {
    match message {
        Some(m) => Some(m@),
        None => None,
    }
}

} // verus!
