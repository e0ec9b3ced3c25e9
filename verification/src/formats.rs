use crate::console::{
    console_message, first_level, lemma_level_message, lemma_silent_line, level_at, on_at,
    parse_line,
};
use crate::fader::{lemma_position_of_value, position_to_value, to_value, value_to_position};
use crate::json::{
    deref_value, find_member, json_document, json_string, member, parse_document, quote,
    JsonValue,
};
use crate::message::{Fader, FaderView, Json1Message, Json1MessageView};
use crate::text::{decimal, push_integer};
use vstd::prelude::*;

verus! {

/// Why a client's text is not turned into a line for the console.
#[derive(Debug, Clone, Copy, PartialEq, Eq)]
pub enum TranslationError {
    /// The text is not a JSON document.
    InvalidJson,
    /// The document is not an object with a channel from 0 to 255, or one of
    /// its other members has a value of the wrong kind.
    InvalidMessage,
    /// The document has a fader with neither a value nor a position.
    MissingLevel,
}

impl TranslationError {
    /// What is reported of the message that was dropped.
    pub fn message(&self) -> (text: &'static str)
        ensures
            text@ == match *self {
                TranslationError::InvalidJson => "Failed to parse JSON"@,
                TranslationError::InvalidMessage => "Malformed message"@,
                TranslationError::MissingLevel => "No value or position specified"@,
            },
    {
        match self {
            TranslationError::InvalidJson => "Failed to parse JSON",
            TranslationError::InvalidMessage => "Malformed message",
            TranslationError::MissingLevel => "No value or position specified",
        }
    }
}

/// A way of writing the console's lines for a client, and a client's texts
/// for the console.
pub trait TransportFormat: Send + Sync {
    /// What a client is sent for a line of the console.
    spec fn from_console(&self, raw: Seq<char>) -> Seq<char>;

    /// What the console is sent for a text of a client.
    spec fn to_console(&self, alternative: Seq<char>) -> Result<Seq<char>, TranslationError>;

    fn from_ql(&self, raw: String) -> (out: String)
        ensures
            out@ == self.from_console(raw@),
    ;

    fn to_ql(&self, alternative: String) -> (out: Result<String, TranslationError>)
        ensures
            text_result(out) == self.to_console(alternative@),
    ;
}

/// A result with its text by view.
pub open spec fn text_result(out: Result<String, TranslationError>) -> Result<
    Seq<char>,
    TranslationError,
> {
    match out {
        Ok(text) => Ok(text@),
        Err(error) => Err(error),
    }
}

/// The console's own lines, unchanged in both directions.
pub struct Raw {}

impl TransportFormat for Raw {
    open spec fn from_console(&self, raw: Seq<char>) -> Seq<char> {
        raw
    }

    open spec fn to_console(&self, alternative: Seq<char>) -> Result<Seq<char>, TranslationError> {
        Ok(alternative)
    }

    fn from_ql(&self, raw: String) -> (out: String) {
        raw
    }

    fn to_ql(&self, raw: String) -> (out: Result<String, TranslationError>) {
        Ok(raw)
    }
}

/// JSON documents, one per fader level or on/off state.
pub struct Json1 {}

/// A display position, or the raw value, as JSON.
pub open spec fn number_text(number: Option<int>) -> Seq<char> {
    match number {
        Some(n) => decimal(n),
        None => "null"@,
    }
}

/// A display position as an integer.
pub open spec fn position_number(position: Option<u8>) -> Option<int> {
    match position {
        Some(p) => Some(p as int),
        None => None,
    }
}

/// A raw value as an integer.
pub open spec fn value_number(value: Option<i16>) -> Option<int> {
    match value {
        Some(v) => Some(v as int),
        None => None,
    }
}

/// Whether a channel is on, as JSON.
pub open spec fn state_text(state: Option<bool>) -> Seq<char> {
    match state {
        Some(true) => "true"@,
        Some(false) => "false"@,
        None => "null"@,
    }
}

/// A fader as JSON, around its comment as JSON.
pub open spec fn fader_text(fader: Option<FaderView>, comment: Seq<char>) -> Seq<char> {
    match fader {
        Some(f) => "{\"position\":"@ + number_text(position_number(f.position)) + ",\"value\":"@
            + number_text(value_number(f.value)) + ",\"comment\":"@ + comment + "}"@,
        None => "null"@,
    }
}

/// A message as JSON, around its fader's comment as JSON.
pub open spec fn message_text(message: Json1MessageView, comment: Seq<char>) -> Seq<char> {
    "{\"channel\":"@ + decimal(message.channel as int) + ",\"fader\":"@ + fader_text(
        message.fader,
        comment,
    ) + ",\"state\":"@ + state_text(message.state) + "}"@
}

/// The comment of a message's fader as JSON: the string as the serializer
/// writes it, and `null` where there is no comment.
pub open spec fn comment_text(message: Json1MessageView) -> Option<Seq<char>> {
    match message.fader {
        Some(f) => match f.comment {
            Some(comment) => json_string(comment),
            None => Some("null"@),
        },
        None => Some("null"@),
    }
}

/// A message as JSON, where its comment can be written.
pub open spec fn json1_text(message: Json1MessageView) -> Option<Seq<char>> {
    match comment_text(message) {
        Some(comment) => Some(message_text(message, comment)),
        None => None,
    }
}

/// What a client of the JSON format is sent for a line of the console: the
/// message of the line as JSON, and the empty text for a line that says
/// nothing a client is told.
pub open spec fn json1_from_console(raw: Seq<char>) -> Seq<char> {
    match console_message(raw) {
        Some(message) => match json1_text(message) {
            Some(text) => text,
            None => Seq::empty(),
        },
        None => Seq::empty(),
    }
}

fn push_number(out: &mut String, number: Option<i64>)
    ensures
        final(out)@ == old(out)@ + number_text(
            match number {
                Some(n) => Some(n as int),
                None => None,
            },
        ),
{
    match number {
        Some(n) => push_integer(out, n),
        None => out.append("null"),
    }
}

fn write_fader(fader: &Option<Fader>, comment: &str) -> (text: String)
    ensures
        text@ == fader_text(
            match *fader {
                Some(f) => Some(f@),
                None => None,
            },
            comment@,
        ),
{
    match fader {
        Some(f) => {
            let mut text = String::from_str("{\"position\":");
            push_number(
                &mut text,
                match f.position {
                    Some(p) => Some(p as i64),
                    None => None,
                },
            );
            text.append(",\"value\":");
            push_number(
                &mut text,
                match f.value {
                    Some(v) => Some(v as i64),
                    None => None,
                },
            );
            text.append(",\"comment\":");
            text.append(comment);
            text.append("}");
            text
        },
        None => String::from_str("null"),
    }
}

/// Writes a message as JSON, around its fader's comment as JSON.
pub fn write_message(message: &Json1Message, comment: &str) -> (text: String)
    ensures
        text@ == message_text(message@, comment@),
{
    let mut text = String::from_str("{\"channel\":");
    push_integer(&mut text, message.channel as i64);
    text.append(",\"fader\":");
    let fader = write_fader(&message.fader, comment);
    text.append(fader.as_str());
    text.append(",\"state\":");
    match message.state {
        Some(true) => text.append("true"),
        Some(false) => text.append("false"),
        None => text.append("null"),
    }
    text.append("}");
    text
}

/// Writes a message as JSON.
pub fn render(message: &Json1Message) -> (text: Option<String>)
    ensures
        match text {
            Some(t) => json1_text(message@) == Some(t@),
            None => json1_text(message@) is None,
        },
{
    let comment: Option<String> = match &message.fader {
        Some(f) => match &f.comment {
            Some(comment) => quote(comment.as_str()),
            None => Some(String::from_str("null")),
        },
        None => Some(String::from_str("null")),
    };
    match comment {
        Some(comment) => Some(write_message(message, comment.as_str())),
        None => None,
    }
}

/// A member that holds an integer from `low` to `high`, if it is there and
/// not null.
pub open spec fn integer_member(found: Option<JsonValue>, low: int, high: int) -> Result<
    Option<int>,
    TranslationError,
> {
    match found {
        None => Ok(None),
        Some(JsonValue::Null) => Ok(None),
        Some(JsonValue::Number(Some(n))) => if low <= n <= high {
            Ok(Some(n as int))
        } else {
            Err(TranslationError::InvalidMessage)
        },
        Some(_) => Err(TranslationError::InvalidMessage),
    }
}

/// A member that holds a string, if it is there and not null.
pub open spec fn text_member(found: Option<JsonValue>) -> Result<
    Option<Seq<char>>,
    TranslationError,
> {
    match found {
        None => Ok(None),
        Some(JsonValue::Null) => Ok(None),
        Some(JsonValue::Text(text)) => Ok(Some(text@)),
        Some(_) => Err(TranslationError::InvalidMessage),
    }
}

/// A member that holds `true` or `false`, if it is there and not null.
pub open spec fn bool_member(found: Option<JsonValue>) -> Result<Option<bool>, TranslationError> {
    match found {
        None => Ok(None),
        Some(JsonValue::Null) => Ok(None),
        Some(JsonValue::Bool(flag)) => Ok(Some(flag)),
        Some(_) => Err(TranslationError::InvalidMessage),
    }
}

/// A member that holds a fader, if it is there and not null: an object
/// whose `position` is an integer from 0 to 255, whose `value` is an integer
/// within 16 bits and whose `comment` is a string, as far as it has them.
pub open spec fn fader_member(found: Option<JsonValue>) -> Result<
    Option<FaderView>,
    TranslationError,
> {
    match found {
        None => Ok(None),
        Some(JsonValue::Null) => Ok(None),
        Some(JsonValue::Object(members)) => match (
            integer_member(member(members@, "position"@), 0, 255),
            integer_member(member(members@, "value"@), -32768, 32767),
            text_member(member(members@, "comment"@)),
        ) {
            (Ok(position), Ok(value), Ok(comment)) => Ok(
                Some(
                    FaderView {
                        position: match position {
                            Some(p) => Some(p as u8),
                            None => None,
                        },
                        value: match value {
                            Some(v) => Some(v as i16),
                            None => None,
                        },
                        comment,
                    },
                ),
            ),
            _ => Err(TranslationError::InvalidMessage),
        },
        Some(_) => Err(TranslationError::InvalidMessage),
    }
}

/// The message that a document holds: an object with a `channel` from 0 to
/// 255 and, as far as it has them, a `fader` and a `state`.
pub open spec fn document_message(document: JsonValue) -> Result<
    Json1MessageView,
    TranslationError,
> {
    match document {
        JsonValue::Object(members) => match (
            integer_member(member(members@, "channel"@), 0, 255),
            fader_member(member(members@, "fader"@)),
            bool_member(member(members@, "state"@)),
        ) {
            (Ok(Some(channel)), Ok(fader), Ok(state)) => Ok(
                Json1MessageView { channel: channel as u8, fader, state },
            ),
            _ => Err(TranslationError::InvalidMessage),
        },
        _ => Err(TranslationError::InvalidMessage),
    }
}

/// The line that sets a channel's fader to a raw value.
pub open spec fn level_command(channel: int, value: int) -> Seq<char> {
    "set MIXER:Current/InCh/Fader/Level "@ + decimal(channel) + " 0 "@ + decimal(value)
}

/// The line that switches a channel on or off.
pub open spec fn on_command(channel: int, on: bool) -> Seq<char> {
    "set MIXER:Current/InCh/Fader/On "@ + decimal(channel) + " 0 "@ + if on {
        "1"@
    } else {
        "0"@
    }
}

/// The line that asks the console for what a message says. A fader goes
/// before a state; its raw value goes before its position, which stands for
/// the raw value of that position. A message with neither asks for nothing.
pub open spec fn message_command(message: Json1MessageView) -> Result<
    Seq<char>,
    TranslationError,
> {
    match message.fader {
        Some(fader) => match fader.value {
            Some(value) => Ok(level_command(message.channel as int, value as int)),
            None => match fader.position {
                Some(position) => Ok(
                    level_command(message.channel as int, position_to_value(position as int)),
                ),
                None => Err(TranslationError::MissingLevel),
            },
        },
        None => match message.state {
            Some(on) => Ok(on_command(message.channel as int, on)),
            None => Ok(Seq::empty()),
        },
    }
}

/// The line that asks the console for what a parsed text says.
pub open spec fn document_command(document: Option<JsonValue>) -> Result<
    Seq<char>,
    TranslationError,
> {
    match document {
        None => Err(TranslationError::InvalidJson),
        Some(d) => match document_message(d) {
            Ok(message) => message_command(message),
            Err(error) => Err(error),
        },
    }
}

/// What the console is sent for a text of a client of the JSON format.
pub open spec fn json1_to_console(text: Seq<char>) -> Result<Seq<char>, TranslationError> {
    document_command(json_document(text))
}

/// A line of the console in which neither kind of line starts anywhere
/// is written for a client of the JSON format as the empty text.
pub proof fn lemma_unmatched_line(line: Seq<char>)
    requires
        ((forall|at: int|
            0 <= at < line.len() ==> #[trigger] level_at(line, at) is None) && (forall|at: int|
            0 <= at < line.len() ==> #[trigger] on_at(line, at) is None)),
    ensures
        (Json1 {}).from_console(line) == Seq::<char>::empty(),
{
    lemma_silent_line(line);
}

/// The message of a level line asks the console for the channel and the
/// raw value that the line names: what a client is told of a level, sent
/// back as it is, sets that level.
pub proof fn lemma_level_round_trip(line: Seq<char>)
    requires
        first_level(line, 0) is Some,
    ensures
        message_command(console_message(line).unwrap()) == Ok::<Seq<char>, TranslationError>(
            level_command(
                console_message(line).unwrap().channel as int,
                console_message(line).unwrap().fader.unwrap().value.unwrap() as int,
            ),
        ),
{
    lemma_level_message(line);
}

/// A message that names a fader by its display position alone asks the
/// console for the raw value of that position, and for a position above 1
/// that raw value is shown at the position again.
pub proof fn lemma_position_round_trip(channel: u8, position: u8, comment: Option<Seq<char>>)
    ensures
        message_command(
            Json1MessageView {
                channel,
                fader: Some(FaderView { position: Some(position), value: None, comment }),
                state: None,
            },
        ) == Ok::<Seq<char>, TranslationError>(
            level_command(channel as int, position_to_value(position as int)),
        ),
        position >= 2 ==> value_to_position(position_to_value(position as int)) == position,
{
    if position >= 2 {
        lemma_position_of_value(position as int);
    }
}

fn read_integer(found: Option<&JsonValue>, low: i64, high: i64) -> (number: Result<
    Option<i64>,
    TranslationError,
>)
    ensures
        match number {
            Ok(Some(n)) => integer_member(deref_value(found), low as int, high as int) == Ok::<
                Option<int>,
                TranslationError,
            >(Some(n as int)),
            Ok(None) => integer_member(deref_value(found), low as int, high as int) == Ok::<
                Option<int>,
                TranslationError,
            >(None),
            Err(error) => integer_member(deref_value(found), low as int, high as int) == Err::<
                Option<int>,
                TranslationError,
            >(error),
        },
{
    match found {
        None => Ok(None),
        Some(JsonValue::Null) => Ok(None),
        Some(JsonValue::Number(Some(n))) => if low <= *n && *n <= high {
            Ok(Some(*n))
        } else {
            Err(TranslationError::InvalidMessage)
        },
        Some(_) => Err(TranslationError::InvalidMessage),
    }
}

fn read_fader(found: Option<&JsonValue>) -> (fader: Result<Option<Fader>, TranslationError>)
    ensures
        match fader {
            Ok(Some(f)) => fader_member(deref_value(found)) == Ok::<
                Option<FaderView>,
                TranslationError,
            >(Some(f@)),
            Ok(None) => fader_member(deref_value(found)) == Ok::<
                Option<FaderView>,
                TranslationError,
            >(None),
            Err(error) => fader_member(deref_value(found)) == Err::<
                Option<FaderView>,
                TranslationError,
            >(error),
        },
{
    match found {
        None => Ok(None),
        Some(JsonValue::Null) => Ok(None),
        Some(JsonValue::Object(members)) => {
            let position = read_integer(find_member(members, "position"), 0, 255);
            let value = read_integer(find_member(members, "value"), -32768, 32767);
            let comment: Result<Option<String>, TranslationError> = match find_member(
                members,
                "comment",
            ) {
                None => Ok(None),
                Some(JsonValue::Null) => Ok(None),
                Some(JsonValue::Text(text)) => Ok(Some(text.clone())),
                Some(_) => Err(TranslationError::InvalidMessage),
            };
            match (position, value, comment) {
                (Ok(position), Ok(value), Ok(comment)) => Ok(
                    Some(
                        Fader {
                            position: match position {
                                Some(p) => Some(p as u8),
                                None => None,
                            },
                            value: match value {
                                Some(v) => Some(v as i16),
                                None => None,
                            },
                            comment,
                        },
                    ),
                ),
                _ => Err(TranslationError::InvalidMessage),
            }
        },
        Some(_) => Err(TranslationError::InvalidMessage),
    }
}

/// A result with its message by view.
pub open spec fn message_result(message: Result<Json1Message, TranslationError>) -> Result<
    Json1MessageView,
    TranslationError,
> {
    match message {
        Ok(m) => Ok(m@),
        Err(error) => Err(error),
    }
}

/// Reads the message that a document holds.
pub fn read_message(document: &JsonValue) -> (message: Result<Json1Message, TranslationError>)
    ensures
        message_result(message) == document_message(*document),
{
    match document {
        JsonValue::Object(members) => {
            let channel = read_integer(find_member(members, "channel"), 0, 255);
            let fader = read_fader(find_member(members, "fader"));
            let state: Result<Option<bool>, TranslationError> = match find_member(
                members,
                "state",
            ) {
                None => Ok(None),
                Some(JsonValue::Null) => Ok(None),
                Some(JsonValue::Bool(flag)) => Ok(Some(*flag)),
                Some(_) => Err(TranslationError::InvalidMessage),
            };
            match (channel, fader, state) {
                (Ok(Some(channel)), Ok(fader), Ok(state)) => Ok(
                    Json1Message { channel: channel as u8, fader, state },
                ),
                _ => Err(TranslationError::InvalidMessage),
            }
        },
        _ => Err(TranslationError::InvalidMessage),
    }
}

fn write_level(channel: u8, value: i64) -> (line: String)
    ensures
        line@ == level_command(channel as int, value as int),
{
    let mut line = String::from_str("set MIXER:Current/InCh/Fader/Level ");
    push_integer(&mut line, channel as i64);
    line.append(" 0 ");
    push_integer(&mut line, value);
    line
}

/// Writes the line that asks the console for what a message says.
pub fn command(message: &Json1Message) -> (line: Result<String, TranslationError>)
    ensures
        text_result(line) == message_command(message@),
{
    match &message.fader {
        Some(fader) => match fader.value {
            Some(value) => Ok(write_level(message.channel, value as i64)),
            None => match fader.position {
                Some(position) => Ok(write_level(message.channel, to_value(position))),
                None => Err(TranslationError::MissingLevel),
            },
        },
        None => match message.state {
            Some(on) => {
                let mut line = String::from_str("set MIXER:Current/InCh/Fader/On ");
                push_integer(&mut line, message.channel as i64);
                line.append(" 0 ");
                line.append(
                    if on {
                        "1"
                    } else {
                        "0"
                    },
                );
                Ok(line)
            },
            None => Ok(String::new()),
        },
    }
}

/// Writes the line that asks the console for what a parsed text says.
pub fn translate_document(document: &Option<JsonValue>) -> (line: Result<String, TranslationError>)
    ensures
        text_result(line) == document_command(*document),
{
    match document {
        None => Err(TranslationError::InvalidJson),
        Some(d) => match read_message(d) {
            Ok(message) => command(&message),
            Err(error) => Err(error),
        },
    }
}

impl TransportFormat for Json1 {
    open spec fn from_console(&self, raw: Seq<char>) -> Seq<char> {
        json1_from_console(raw)
    }

    open spec fn to_console(&self, alternative: Seq<char>) -> Result<Seq<char>, TranslationError> {
        json1_to_console(alternative)
    }

    fn from_ql(&self, raw: String) -> (out: String) {
        match parse_line(raw.as_str()) {
            Some(message) => match render(&message) {
                Some(text) => text,
                None => String::new(),
            },
            None => String::new(),
        }
    }

    fn to_ql(&self, json: String) -> (out: Result<String, TranslationError>) {
        let document = parse_document(json.as_str());
        translate_document(&document)
    }
}

} // verus!
