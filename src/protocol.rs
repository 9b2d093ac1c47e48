use vstd::prelude::*;
use vstd::string::StringExecFns;

use crate::events::RealTimeEvent;

verus! {

/// Name of the push event announcing a post by a followed user.
pub const NEW_POST_NOTIFICATION_EVENT_NAME: &'static str = "new_post_notification";

/// Name of the push event announcing the number of connected users.
pub const CONNECTED_USERS_COUNT_UPDATE_EVENT_NAME: &'static str = "connected_users_count_update";

/// Name of the push event that answers a command the server refused.
pub const ERROR_EVENT_NAME: &'static str = "error";

/// Command action that subscribes the connection to an event.
pub const SUBSCRIBE_ACTION: &'static str = "subscribe_to_event";

/// Command action that unsubscribes the connection from an event.
pub const UNSUBSCRIBE_ACTION: &'static str = "unsubscribe_to_event";

/// Answer to a frame that is not a command object.
pub const INVALID_JSON_MESSAGE: &'static str = "Event JSON invalide.";

/// Answer to a command whose content has no `event` member.
pub const MISSING_EVENT_MESSAGE: &'static str = "Le champs `event` est manquant à l'intérieur de `content`.";

/// Answer to a command whose `event` member is not a string.
pub const EVENT_NOT_TEXT_MESSAGE: &'static str =
    "Le champs `event` à l'intérieur de `content` doit être une chaîne de caractères.";

/// The lowercase hexadecimal digit of `d`.
pub open spec fn hex_digit(d: nat) -> char {
    if d < 10 {
        digit(d)
    } else if d == 10 {
        'a'
    } else if d == 11 {
        'b'
    } else if d == 12 {
        'c'
    } else if d == 13 {
        'd'
    } else if d == 14 {
        'e'
    } else {
        'f'
    }
}

/// How one character is written inside a JSON string: quote and backslash
/// escaped, the usual short escapes for control characters that have one,
/// `\u00XX` for the other control characters, anything else as itself.
pub open spec fn escaped_char(c: char) -> Seq<char> {
    if c == '"' {
        seq!['\\', '"']
    } else if c == '\\' {
        seq!['\\', '\\']
    } else if c == '\u{8}' {
        seq!['\\', 'b']
    } else if c == '\t' {
        seq!['\\', 't']
    } else if c == '\n' {
        seq!['\\', 'n']
    } else if c == '\u{c}' {
        seq!['\\', 'f']
    } else if c == '\r' {
        seq!['\\', 'r']
    } else if (c as u32) < 0x20 {
        seq!['\\', 'u', '0', '0', hex_digit((c as u32 / 16) as nat), hex_digit((c as u32 % 16) as nat)]
    } else {
        seq![c]
    }
}

/// The characters of `s`, each written as inside a JSON string.
pub open spec fn escaped(s: Seq<char>) -> Seq<char>
    decreases s.len(),
{
    if s.len() == 0 {
        s
    } else {
        escaped(s.drop_last()) + escaped_char(s.last())
    }
}

/// The text of a JSON string holding `s`, quotes included.
pub open spec fn json_string(s: Seq<char>) -> Seq<char> {
    seq!['"'] + escaped(s) + seq!['"']
}

/// The decimal digits of `n`, most significant first, with no leading zero.
pub open spec fn decimal(n: nat) -> Seq<char>
    decreases n,
{
    if n < 10 {
        seq![digit(n)]
    } else {
        decimal(n / 10) + seq![digit(n % 10)]
    }
}

/// The character of a decimal digit.
pub open spec fn digit(d: nat) -> char {
    if d == 0 {
        '0'
    } else if d == 1 {
        '1'
    } else if d == 2 {
        '2'
    } else if d == 3 {
        '3'
    } else if d == 4 {
        '4'
    } else if d == 5 {
        '5'
    } else if d == 6 {
        '6'
    } else if d == 7 {
        '7'
    } else if d == 8 {
        '8'
    } else {
        '9'
    }
}

/// A server-to-client frame: `{"event":<name>,"content":<content>}`, where
/// `content` is already JSON text.
pub open spec fn frame_text(name: Seq<char>, content: Seq<char>) -> Seq<char> {
    "{\"event\":"@ + json_string(name) + ",\"content\":"@ + content + "}"@
}

/// The frame announcing `count` connected users.
pub open spec fn count_update_frame(count: nat) -> Seq<char> {
    frame_text(CONNECTED_USERS_COUNT_UPDATE_EVENT_NAME@, decimal(count))
}

/// The frame carrying the error message `text`.
pub open spec fn error_frame(text: Seq<char>) -> Seq<char> {
    frame_text(ERROR_EVENT_NAME@, json_string(text))
}

/// Relies on serde_json's `Value::String` and its `Display`, which writes
/// the string between quotes, escaping characters as `escaped_char` says
/// (serde_json's `format_escaped_str` and its `ESCAPE` table).
#[verifier::external_body]
pub(crate) fn quote(s: &str) -> (r: String)
    ensures
        r@ == json_string(s@),
{
    serde_json::Value::String(s.to_string()).to_string()
}

/// The one-character text of the digit `d`.
fn digit_text(d: u64) -> (r: &'static str)
    requires
        d < 10,
    ensures
        r@ == seq![digit(d as nat)],
{
    proof {
        reveal_strlit("0");
        reveal_strlit("1");
        reveal_strlit("2");
        reveal_strlit("3");
        reveal_strlit("4");
        reveal_strlit("5");
        reveal_strlit("6");
        reveal_strlit("7");
        reveal_strlit("8");
        reveal_strlit("9");
    }
    if d == 0 {
        "0"
    } else if d == 1 {
        "1"
    } else if d == 2 {
        "2"
    } else if d == 3 {
        "3"
    } else if d == 4 {
        "4"
    } else if d == 5 {
        "5"
    } else if d == 6 {
        "6"
    } else if d == 7 {
        "7"
    } else if d == 8 {
        "8"
    } else {
        "9"
    }
}

/// The decimal digits of `n`.
pub fn decimal_text(n: u64) -> (r: String)
    ensures
        r@ == decimal(n as nat),
    decreases n,
{
    if n < 10 {
        String::from_str(digit_text(n))
    } else {
        let mut r = decimal_text(n / 10);
        r.append(digit_text(n % 10));
        r
    }
}

/// Builds `{"event":<name>,"content":<content>}`.
pub fn frame(name: &str, content: &str) -> (r: String)
    ensures
        r@ == frame_text(name@, content@),
{
    let mut r = String::from_str("{\"event\":");
    let q = quote(name);
    r.append(q.as_str());
    r.append(",\"content\":");
    r.append(content);
    r.append("}");
    r
}

/// Builders of the frames that the server pushes to clients.
pub struct WsEvent;

impl WsEvent {
    /// The frame announcing that `count` authenticated users are connected.
    pub fn new_connected_users_count_update_event(count: usize) -> (r: String)
        ensures
            r@ == count_update_frame(count as nat),
    {
        let digits = decimal_text(count as u64);
        frame(CONNECTED_USERS_COUNT_UPDATE_EVENT_NAME, digits.as_str())
    }

    /// The frame telling the client that its command was refused.
    pub fn new_error(text: &str) -> (r: String)
        ensures
            r@ == error_frame(text@),
    {
        let q = quote(text);
        frame(ERROR_EVENT_NAME, q.as_str())
    }

    /// The frame announcing a new post; `post_json` is the post as JSON text.
    pub fn new_post_notification_event(post_json: &str) -> (r: String)
        ensures
            r@ == frame_text(NEW_POST_NOTIFICATION_EVENT_NAME@, post_json@),
    {
        frame(NEW_POST_NOTIFICATION_EVENT_NAME, post_json)
    }
}


/// Name of what a command frame holds, as serde_json reads it: `None` when
/// the text is not a JSON object with a string member `action` and a member
/// `content`; otherwise the action, and what the member `event` of the
/// content holds: `None` when it is absent, `Some(None)` when it is not a
/// string, `Some(Some(name))` for the string `name`.
pub uninterp spec fn command_fields(text: Seq<char>) -> Option<
    (Seq<char>, Option<Option<Seq<char>>>),
>;

/// The text of what an `event` member holds.
pub open spec fn event_view(e: Option<Option<String>>) -> Option<Option<Seq<char>>> {
    match e {
        None => None,
        Some(None) => Some(None),
        Some(Some(n)) => Some(Some(n@)),
    }
}

/// Relies on `serde_json::from_str` into a `Value`, `Value::get` and
/// `Value::as_str`; the result depends on the text alone.
#[verifier::external_body]
fn read_command(text: &str) -> (r: Option<(String, Option<Option<String>>)>)
    ensures
        match r {
            None => command_fields(text@) is None,
            Some(f) => command_fields(text@) == Some((f.0@, event_view(f.1))),
        },
{
    let v: serde_json::Value = serde_json::from_str(text).ok()?;
    let action = v.get("action")?.as_str()?.to_string();
    let event = match v.get("content")?.get("event") {
        None => None,
        Some(e) => Some(e.as_str().map(|n| n.to_string())),
    };
    Some((action, event))
}

/// What a client asks for in a command frame.
#[derive(Clone, Copy, Debug, PartialEq, Eq, Structural)]
pub enum ClientAction {
    Subscribe,
    Unsubscribe,
}

/// A command frame that names a known action and a client-subscribable event.
#[derive(Clone, Copy, Debug, PartialEq, Eq, Structural)]
pub struct ClientCommand {
    pub action: ClientAction,
    pub event: RealTimeEvent,
}

/// Answer to a command naming an event that clients cannot subscribe to.
pub open spec fn unknown_event_message(name: Seq<char>) -> Seq<char> {
    "L'event `"@ + name + "` n'existe pas."@
}

/// Answer to a command naming an unknown action.
pub open spec fn unknown_action_message(action: Seq<char>) -> Seq<char> {
    "L'action `"@ + action + "` n'existe pas."@
}

/// How a command with this action and event name is understood: only the
/// connected-users count can be subscribed to by clients; the event name is
/// checked before the action.
pub open spec fn command_of(action: Seq<char>, name: Seq<char>) -> Result<ClientCommand, Seq<char>> {
    if name != CONNECTED_USERS_COUNT_UPDATE_EVENT_NAME@ {
        Err(unknown_event_message(name))
    } else if action == SUBSCRIBE_ACTION@ {
        Ok(
            ClientCommand {
                action: ClientAction::Subscribe,
                event: RealTimeEvent::ConnectedUsersCountUpdate,
            },
        )
    } else if action == UNSUBSCRIBE_ACTION@ {
        Ok(
            ClientCommand {
                action: ClientAction::Unsubscribe,
                event: RealTimeEvent::ConnectedUsersCountUpdate,
            },
        )
    } else {
        Err(unknown_action_message(action))
    }
}

/// Understands a command from its action and event name.
pub fn interpret_client_event(action: &str, event_name: &str) -> (r: Result<ClientCommand, String>)
    ensures
        match command_of(action@, event_name@) {
            Ok(c) => r == Ok::<ClientCommand, String>(c),
            Err(m) => r is Err && r->Err_0@ == m,
        },
{
    let name = String::from_str(event_name);
    if name != String::from_str(CONNECTED_USERS_COUNT_UPDATE_EVENT_NAME) {
        let mut m = String::from_str("L'event `");
        m.append(event_name);
        m.append("` n'existe pas.");
        return Err(m);
    }
    let act = String::from_str(action);
    if act == String::from_str(SUBSCRIBE_ACTION) {
        Ok(
            ClientCommand {
                action: ClientAction::Subscribe,
                event: RealTimeEvent::ConnectedUsersCountUpdate,
            },
        )
    } else if act == String::from_str(UNSUBSCRIBE_ACTION) {
        Ok(
            ClientCommand {
                action: ClientAction::Unsubscribe,
                event: RealTimeEvent::ConnectedUsersCountUpdate,
            },
        )
    } else {
        let mut m = String::from_str("L'action `");
        m.append(action);
        m.append("` n'existe pas.");
        Err(m)
    }
}

/// A decoded command frame: its action and what the member `event` of its
/// content holds.
pub struct ClientEvent {
    pub action: String,
    pub event: Option<Option<String>>,
}

impl ClientEvent {
    /// Decodes a command frame: a JSON object with a string member
    /// `action` and a member `content`. `None` for any other text.
    pub fn from_json(text: &str) -> (r: Option<ClientEvent>)
        ensures
            match r {
                None => command_fields(text@) is None,
                Some(e) => command_fields(text@) == Some((e.action@, event_view(e.event))),
            },
    {
        match read_command(text) {
            Some((action, event)) => Some(ClientEvent { action, event }),
            None => None,
        }
    }

    /// The name of the event the command is about: the string member
    /// `event` of the content, or the answer to send when there is none.
    pub fn event_name(&self) -> (r: Result<String, String>)
        ensures
            match self.event {
                None => r is Err && r->Err_0@ == MISSING_EVENT_MESSAGE@,
                Some(None) => r is Err && r->Err_0@ == EVENT_NOT_TEXT_MESSAGE@,
                Some(Some(n)) => r == Ok::<String, String>(n),
            },
    {
        match &self.event {
            Some(Some(name)) => Ok(name.clone()),
            Some(None) => Err(String::from_str(EVENT_NOT_TEXT_MESSAGE)),
            None => Err(String::from_str(MISSING_EVENT_MESSAGE)),
        }
    }
}

} // verus!
