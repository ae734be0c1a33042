//! The client's side of the wire: what an operator's line asks for, the
//! request that goes to the broker for it, and how a received delivery is
//! taken apart.

use crate::text::{
    chars_of, decode_lossy, lossy_text, lowercase, same_text, split_whitespace, to_lowercase, words,
};
use vstd::prelude::*;
use vstd::string::*;

verus! {

/// Quality-of-service level of a request.
#[derive(Debug, PartialEq, Eq, Clone, Copy, Structural)]
pub enum Qos {
    Low,
    Medium,
    High,
}

/// What kind of line the operator entered.
#[derive(Debug, PartialEq, Eq, Clone, Copy, Structural)]
pub enum Ex {
    /// A single word: nothing to do.
    Empty,
    /// A request to leave.
    Exit,
    /// A line for the relay, to be interpreted further.
    Mqtt,
}

/// What a line for the relay asks for.
#[derive(Debug, PartialEq, Eq)]
pub enum Command {
    Subscribe { topic: String, qos: Qos },
    Publish { topic: String, message: String, qos: Qos },
    Help,
}

/// A command with its texts as sequences of characters.
pub enum CommandView {
    Subscribe { topic: Seq<char>, qos: Qos },
    Publish { topic: Seq<char>, message: Seq<char>, qos: Qos },
    Help,
}

impl View for Command {
    type V = CommandView;

    open spec fn view(&self) -> CommandView {
        match self {
            Command::Subscribe { topic, qos } => CommandView::Subscribe { topic: topic@, qos: *qos },
            Command::Publish { topic, message, qos } => CommandView::Publish {
                topic: topic@,
                message: message@,
                qos: *qos,
            },
            Command::Help => CommandView::Help,
        }
    }
}

/// The text shown for a line that cannot be used.
pub open spec fn warning() -> Seq<char> {
    "warning: Invalid command ---> run : mqtt -H"@
}

/// The level that a word stands for once it is in lower case: `1` is
/// `Medium`, `2` is `High`, and every other word, `0` among them, is `Low`.
pub open spec fn qos_of(lowered: Seq<char>) -> Qos {
    if lowered == "1"@ {
        Qos::Medium
    } else if lowered == "2"@ {
        Qos::High
    } else {
        Qos::Low
    }
}

/// The kind of a line with `count` words whose first word, in lower case, is
/// `first`; `None` for a line that cannot be used. A line of one word is
/// `Empty` whatever the word, so no line is ever an `Exit`.
pub open spec fn kind_of(count: nat, first: Seq<char>) -> Option<Ex> {
    if count == 1 {
        Some(Ex::Empty)
    } else if count >= 2 && first == "mqtt"@ {
        Some(Ex::Mqtt)
    } else {
        None
    }
}

/// The kind of a line with these words; `None` for a line that cannot be
/// used, an empty one among them.
pub open spec fn line_kind(words: Seq<Seq<char>>) -> Option<Ex> {
    if words.len() == 0 {
        None
    } else {
        kind_of(words.len(), lowercase(words[0]))
    }
}

/// Whether the second word of a line is `long` or its short form `short`.
pub open spec fn names(verb: Seq<char>, long: Seq<char>, short: Seq<char>) -> bool {
    verb == long || verb == short
}

/// What a line with these words, the first of which has been found to
/// address the relay, asks for; `None` where the second word is no known
/// verb or too few words follow it.
pub open spec fn request_of(words: Seq<Seq<char>>) -> Option<CommandView> {
    if names(words[1], "SUBSCRIBE"@, "--S"@) {
        if words.len() < 4 {
            None
        } else {
            Some(CommandView::Subscribe { topic: words[2], qos: qos_of(lowercase(words[3])) })
        }
    } else if names(words[1], "PUBLISH"@, "--P"@) {
        if words.len() < 5 {
            None
        } else {
            Some(
                CommandView::Publish {
                    topic: words[2],
                    message: words[3],
                    qos: qos_of(lowercase(words[4])),
                },
            )
        }
    } else if names(words[1], "HELP"@, "--H"@) {
        Some(CommandView::Help)
    } else {
        None
    }
}

/// The request that goes to the broker for a command; `Help` sends nothing.
pub open spec fn wire_form(command: CommandView) -> Option<Seq<char>> {
    match command {
        CommandView::Subscribe { topic, qos } => Some(
            "SUBSCRIBE "@ + topic + seq![' ', digit_of(qos)],
        ),
        CommandView::Publish { topic, message, qos } => Some(
            "PUBLISH "@ + topic + seq![' '] + message + seq![' ', digit_of(qos)],
        ),
        CommandView::Help => None,
    }
}

/// The digit that is written for a level.
pub open spec fn digit_of(qos: Qos) -> char {
    match qos {
        Qos::Low => '0',
        Qos::Medium => '1',
        Qos::High => '2',
    }
}

/// Where the first space of `text` stands; its length where it has none.
pub open spec fn first_space(text: Seq<char>) -> int
    decreases text.len(),
{
    if text.len() == 0 || text[0] == ' ' {
        0
    } else {
        1 + first_space(text.drop_first())
    }
}

/// The topic and the message of a received delivery: what stands before the
/// first space, and what stands after it. A delivery without a space is all
/// topic, and its message reads `Empty Message`.
pub open spec fn delivery_parts(text: Seq<char>) -> (Seq<char>, Seq<char>) {
    let at = first_space(text);
    if at < text.len() {
        (text.take(at), text.skip(at + 1))
    } else {
        (text, "Empty Message"@)
    }
}

/// Reads a quality-of-service word that is already in lower case.
pub fn qos_from_word(lowered: &str) -> (level: Qos)
    ensures
        level == qos_of(lowered@),
{
    if same_text(lowered, "1") {
        Qos::Medium
    } else if same_text(lowered, "2") {
        Qos::High
    } else {
        Qos::Low
    }
}

/// Reads a quality-of-service word, whatever its case.
pub fn parse_qos(qos_str: &str) -> (level: Qos)
    ensures
        level == qos_of(lowercase(qos_str@)),
{
    let lowered = to_lowercase(qos_str);
    qos_from_word(lowered.as_str())
}

/// Classifies a line by the number of its words and its first word in lower
/// case. A line that cannot be used yields the warning to show.
pub fn classify(count: usize, first: &str) -> (kind: Result<Ex, String>)
    ensures
        match kind_of(count as nat, first@) {
            Some(expected) => kind == Ok::<Ex, String>(expected),
            None => kind matches Err(text) && text@ == warning(),
        },
{
    if count == 1 {
        Ok(Ex::Empty)
    } else if count >= 2 && same_text(first, "mqtt") {
        Ok(Ex::Mqtt)
    } else {
        Err("warning: Invalid command ---> run : mqtt -H".to_owned())
    }
}

/// Classifies one line of input.
pub fn parse_command(command: &str) -> (kind: Result<Ex, String>)
    ensures
        match line_kind(split_whitespace(command@)) {
            Some(expected) => kind == Ok::<Ex, String>(expected),
            None => kind matches Err(text) && text@ == warning(),
        },
        kind == Ok::<Ex, String>(Ex::Mqtt) ==> split_whitespace(command@).len() >= 2,
{
    let parts = words(command);
    if parts.len() == 0 {
        classify(0, "")
    } else {
        let first = to_lowercase(parts[0].as_str());
        classify(parts.len(), first.as_str())
    }
}

/// Whether `verb` is `long` or `short`.
fn is_verb(verb: &str, long: &str, short: &str) -> (r: bool)
    ensures
        r == names(verb@, long@, short@),
{
    same_text(verb, long) || same_text(verb, short)
}

/// Interprets a line that `parse_command` found to address the relay. A line
/// that asks for nothing known yields the warning to show.
pub fn interpret(command: &str) -> (request: Result<Command, String>)
    requires
        split_whitespace(command@).len() >= 2,
    ensures
        match request_of(split_whitespace(command@)) {
            Some(expected) => request matches Ok(found) && found@ == expected,
            None => request matches Err(text) && text@ == warning(),
        },
{
    let parts = words(command);
    let verb = parts[1].as_str();
    if is_verb(verb, "SUBSCRIBE", "--S") {
        if parts.len() < 4 {
            return Err("warning: Invalid command ---> run : mqtt -H".to_owned());
        }
        let topic = parts[2].clone();
        let qos = parse_qos(parts[3].as_str());
        Ok(Command::Subscribe { topic, qos })
    } else if is_verb(verb, "PUBLISH", "--P") {
        if parts.len() < 5 {
            return Err("warning: Invalid command ---> run : mqtt -H".to_owned());
        }
        let topic = parts[2].clone();
        let message = parts[3].clone();
        let qos = parse_qos(parts[4].as_str());
        Ok(Command::Publish { topic, message, qos })
    } else if is_verb(verb, "HELP", "--H") {
        Ok(Command::Help)
    } else {
        Err("warning: Invalid command ---> run : mqtt -H".to_owned())
    }
}

/// The digit that is written for `qos`.
fn digit(qos: Qos) -> (text: &'static str)
    ensures
        text@ == seq![digit_of(qos)],
{
    proof {
        reveal_strlit("0");
        reveal_strlit("1");
        reveal_strlit("2");
    }
    match qos {
        Qos::Low => "0",
        Qos::Medium => "1",
        Qos::High => "2",
    }
}

/// Writes the request that goes to the broker for `command`, if any does.
pub fn encode(command: &Command) -> (request: Option<String>)
    ensures
        match wire_form(command@) {
            Some(expected) => request matches Some(text) && text@ == expected,
            None => request is None,
        },
{
    proof {
        reveal_strlit(" ");
    }
    match command {
        Command::Subscribe { topic, qos } => {
            let mut request = "SUBSCRIBE ".to_owned();
            request.append(topic.as_str());
            request.append(" ");
            request.append(digit(*qos));
            Some(request)
        },
        Command::Publish { topic, message, qos } => {
            let mut request = "PUBLISH ".to_owned();
            request.append(topic.as_str());
            request.append(" ");
            request.append(message.as_str());
            request.append(" ");
            request.append(digit(*qos));
            Some(request)
        },
        Command::Help => None,
    }
}

/// The first space of a text whose first `at` characters hold none, and
/// which ends or has a space there.
pub proof fn lemma_first_space_is(text: Seq<char>, at: int)
    requires
        0 <= at <= text.len(),
        forall|k: int| 0 <= k < at ==> text[k] != ' ',
        at == text.len() || text[at] == ' ',
    ensures
        first_space(text) == at,
    decreases at,
{
    if at > 0 {
        let rest = text.drop_first();
        assert forall|k: int| 0 <= k < at - 1 implies rest[k] != ' ' by {
            assert(rest[k] == text[k + 1]);
        }
        lemma_first_space_is(rest, at - 1);
    }
}

/// Takes a received delivery apart into its topic and its message.
pub fn split_delivery(text: &str) -> (parts: (String, String))
    ensures
        parts.0@ == delivery_parts(text@).0,
        parts.1@ == delivery_parts(text@).1,
{
    let chars = chars_of(text);
    let n: usize = chars.len();
    let mut at: usize = 0;
    while at < n && chars[at] != ' '
        invariant
            n == chars@.len(),
            chars@ == text@,
            at <= n,
            forall|k: int| 0 <= k < at ==> text@[k] != ' ',
        decreases n - at,
    {
        at = at + 1;
    }
    proof {
        lemma_first_space_is(text@, at as int);
    }
    if at < n {
        let topic = text.substring_char(0, at).to_owned();
        let message = text.substring_char(at + 1, n).to_owned();
        (topic, message)
    } else {
        (text.to_owned(), "Empty Message".to_owned())
    }
}

/// Takes apart a delivery as it came off the connection.
pub fn read_delivery(record: &[u8]) -> (parts: (String, String))
    ensures
        parts.0@ == delivery_parts(lossy_text(record@)).0,
        parts.1@ == delivery_parts(lossy_text(record@)).1,
{
    let text = decode_lossy(record);
    split_delivery(text.as_str())
}

} // verus!
