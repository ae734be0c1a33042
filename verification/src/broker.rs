//! The broker's side of the wire: quality-of-service levels, commands, the
//! request grammar and the form in which a delivery is written to a
//! subscriber.

use crate::text::{decode_lossy, lossy_text, same_text, split_whitespace, words};
use vstd::prelude::*;
use vstd::string::*;

verus! {

/// Quality-of-service level of a subscription or of a publish.
#[derive(Debug, PartialEq, Eq, Clone, Copy, Structural)]
pub enum Qos {
    Low,
    Medium,
    High,
}

/// A request that a connection hands to the dispatcher.
#[derive(Debug, PartialEq, Eq)]
pub enum Command {
    Publish { topic: String, message: String, qos: Qos },
    Subscribe { topic: String, qos: Qos },
}

/// A command with its texts as sequences of characters.
pub enum CommandView {
    Publish { topic: Seq<char>, message: Seq<char>, qos: Qos },
    Subscribe { topic: Seq<char>, qos: Qos },
}

impl View for Command {
    type V = CommandView;

    open spec fn view(&self) -> CommandView {
        match self {
            Command::Publish { topic, message, qos } => CommandView::Publish {
                topic: topic@,
                message: message@,
                qos: *qos,
            },
            Command::Subscribe { topic, qos } => CommandView::Subscribe { topic: topic@, qos: *qos },
        }
    }
}

impl Command {
    /// Whether the command goes to the dispatcher together with the delivery
    /// handle of the connection that sent it: a subscribe does, a publish
    /// does not.
    pub fn carries_handle(&self) -> (carries: bool)
        ensures
            carries == (self@ is Subscribe),
    {
        match self {
            Command::Subscribe { .. } => true,
            Command::Publish { .. } => false,
        }
    }
}

/// Why a request record was discarded.
#[derive(Debug, PartialEq, Eq, Clone, Copy, Structural)]
pub enum RequestError {
    /// The record holds fewer than three words.
    TooShort,
    /// A `PUBLISH` record holds fewer than four words.
    IncompletePublish,
    /// The first word is neither `SUBSCRIBE` nor `PUBLISH`.
    UnknownCommand,
}

/// The level that a word of a request stands for: `1` is `Medium`, `2` is
/// `High`, and every other word, `0` among them, is `Low`.
pub open spec fn qos_of(word: Seq<char>) -> Qos {
    if word == "1"@ {
        Qos::Medium
    } else if word == "2"@ {
        Qos::High
    } else {
        Qos::Low
    }
}

/// What a record with these words asks for.
pub open spec fn request_of(words: Seq<Seq<char>>) -> Result<CommandView, RequestError> {
    if words.len() < 3 {
        Err(RequestError::TooShort)
    } else if words[0] == "SUBSCRIBE"@ {
        Ok(CommandView::Subscribe { topic: words[1], qos: qos_of(words[2]) })
    } else if words[0] == "PUBLISH"@ {
        if words.len() < 4 {
            Err(RequestError::IncompletePublish)
        } else {
            Ok(CommandView::Publish { topic: words[1], message: words[2], qos: qos_of(words[3]) })
        }
    } else {
        Err(RequestError::UnknownCommand)
    }
}

/// Whether `parsed` is the outcome `expected`, texts compared by their
/// characters.
pub open spec fn is_request(
    parsed: Result<Command, RequestError>,
    expected: Result<CommandView, RequestError>,
) -> bool {
    match expected {
        Ok(view) => parsed matches Ok(command) && command@ == view,
        Err(error) => parsed matches Err(e) && e == error,
    }
}

/// The form in which a delivery is written to a subscriber: the topic, one
/// space, the message, and no terminator.
pub open spec fn delivery_text(topic: Seq<char>, message: Seq<char>) -> Seq<char> {
    topic + seq![' '] + message
}

/// Reads a quality-of-service word.
pub fn parse_qos(qos: &str) -> (level: Qos)
    ensures
        level == qos_of(qos@),
{
    if same_text(qos, "1") {
        Qos::Medium
    } else if same_text(qos, "2") {
        Qos::High
    } else {
        Qos::Low
    }
}

/// Reads one request record that has been decoded to text.
pub fn parse_request(request: &str) -> (parsed: Result<Command, RequestError>)
    ensures
        is_request(parsed, request_of(split_whitespace(request@))),
{
    let parts = words(request);
    proof {
        reveal_strlit("SUBSCRIBE");
        reveal_strlit("PUBLISH");
    }
    if parts.len() < 3 {
        return Err(RequestError::TooShort);
    }
    if same_text(parts[0].as_str(), "SUBSCRIBE") {
        let topic = parts[1].clone();
        let qos = parse_qos(parts[2].as_str());
        Ok(Command::Subscribe { topic, qos })
    } else if same_text(parts[0].as_str(), "PUBLISH") {
        if parts.len() < 4 {
            return Err(RequestError::IncompletePublish);
        }
        let topic = parts[1].clone();
        let message = parts[2].clone();
        let qos = parse_qos(parts[3].as_str());
        Ok(Command::Publish { topic, message, qos })
    } else {
        Err(RequestError::UnknownCommand)
    }
}

/// Reads one request record as it came off the connection.
pub fn decode_request(record: &[u8]) -> (parsed: Result<Command, RequestError>)
    ensures
        is_request(parsed, request_of(split_whitespace(lossy_text(record@)))),
{
    let request = decode_lossy(record);
    parse_request(request.as_str())
}

/// Writes a delivery in the form that goes to a subscriber.
pub fn format_delivery(topic: &str, message: &str) -> (line: String)
    ensures
        line@ == delivery_text(topic@, message@),
{
    proof {
        reveal_strlit(" ");
    }
    let mut line = topic.to_owned();
    line.append(" ");
    line.append(message);
    line
}

} // verus!
