//! Classification of a protocol line by its leading token.
//!
//! A line begins with a key that tells where it comes from: the server, a
//! keep-alive ping, the bot itself, or a named peer. What follows the key is
//! the line's content.

use crate::protocol::{PING, SERVER_KEY};
use crate::text::{
    after_token, chars_of, find_char, first_index, head_token, split_token, str_eq, strip_colon,
    without_colon,
};
use vstd::prelude::*;

verus! {

/// Why a line was dropped.
#[derive(Clone, Copy, Debug, PartialEq, Eq, Structural)]
pub enum LineError {
    /// The key is none of the fixed keys and lacks the `!` that ends a
    /// peer's name.
    Classification,
    /// A `PRIVMSG` lacks its channel or its text.
    MalformedCommand,
}

impl LineError {
    /// A few words on why the line was dropped.
    pub fn describe(&self) -> (r: &'static str)
        ensures
            r@ == (match self {
                LineError::Classification => "unrecognized key"@,
                LineError::MalformedCommand => "malformed command"@,
            }),
    {
        match self {
            LineError::Classification => "unrecognized key",
            LineError::MalformedCommand => "malformed command",
        }
    }
}

/// The origin that a key names.
#[derive(Debug, PartialEq, Eq)]
pub enum Key {
    /// The bot itself.
    Me,
    /// The peer of this name.
    Nick(String),
    /// A keep-alive ping.
    Ping,
    /// The server.
    Server,
}

/// What a `Key` stands for.
pub enum KeyView {
    Me,
    Nick(Seq<char>),
    Ping,
    Server,
}

impl View for Key {
    type V = KeyView;

    open spec fn view(&self) -> KeyView {
        match self {
            Key::Me => KeyView::Me,
            Key::Nick(name) => KeyView::Nick(name@),
            Key::Ping => KeyView::Ping,
            Key::Server => KeyView::Server,
        }
    }
}

/// A line with its origin told apart.
#[derive(Debug, PartialEq, Eq)]
pub enum ClassifiedMessage {
    /// A formality of the server.
    FromServer,
    /// A keep-alive ping, with the token to send back.
    KeepAlivePing(String),
    /// A line about the bot itself, with its content.
    FromSelf(String),
    /// A line from a peer.
    FromPeer { name: String, content: String },
}

/// What a `ClassifiedMessage` stands for.
pub enum ClassifiedMessageView {
    FromServer,
    KeepAlivePing(Seq<char>),
    FromSelf(Seq<char>),
    FromPeer { name: Seq<char>, content: Seq<char> },
}

impl View for ClassifiedMessage {
    type V = ClassifiedMessageView;

    open spec fn view(&self) -> ClassifiedMessageView {
        match self {
            ClassifiedMessage::FromServer => ClassifiedMessageView::FromServer,
            ClassifiedMessage::KeepAlivePing(token) => ClassifiedMessageView::KeepAlivePing(
                token@,
            ),
            ClassifiedMessage::FromSelf(content) => ClassifiedMessageView::FromSelf(content@),
            ClassifiedMessage::FromPeer { name, content } => ClassifiedMessageView::FromPeer {
                name: name@,
                content: content@,
            },
        }
    }
}

/// The key of the lines about a bot of the name `nick`: a colon and the name.
pub open spec fn self_key(nick: Seq<char>) -> Seq<char> {
    ":"@ + nick
}

/// Index of the `!` that ends the peer's name in `key`; `key.len()` where
/// `key` has none.
pub open spec fn name_end(key: Seq<char>) -> int {
    first_index(key, |c: char| c == '!')
}

/// The origin that `key` names to a bot of the name `nick`. The fixed keys
/// come first; any other key has to be a peer's, of the shape
/// `:<name>!<rest>`, and names the peer by what stands before the `!`,
/// without the leading colon.
pub open spec fn parsed_key(key: Seq<char>, nick: Seq<char>) -> Result<KeyView, LineError> {
    if key == SERVER_KEY@ {
        Ok(KeyView::Server)
    } else if key == PING@ {
        Ok(KeyView::Ping)
    } else if key == self_key(nick) {
        Ok(KeyView::Me)
    } else if name_end(key) < key.len() {
        Ok(KeyView::Nick(without_colon(key.take(name_end(key)))))
    } else {
        Err(LineError::Classification)
    }
}

/// The classification of `line` by a bot of the name `nick`: the key is what
/// stands before the first white space, the content what follows it.
pub open spec fn classified(line: Seq<char>, nick: Seq<char>) -> Result<
    ClassifiedMessageView,
    LineError,
> {
    let content = after_token(line);
    match parsed_key(head_token(line), nick) {
        Ok(KeyView::Server) => Ok(ClassifiedMessageView::FromServer),
        Ok(KeyView::Ping) => Ok(ClassifiedMessageView::KeepAlivePing(content)),
        Ok(KeyView::Me) => Ok(ClassifiedMessageView::FromSelf(content)),
        Ok(KeyView::Nick(name)) => Ok(ClassifiedMessageView::FromPeer { name, content }),
        Err(e) => Err(e),
    }
}

/// What a result of `parse_key` stands for.
pub open spec fn key_view(r: Result<Key, LineError>) -> Result<KeyView, LineError> {
    match r {
        Ok(key) => Ok(key@),
        Err(e) => Err(e),
    }
}

/// What a result of `classify` stands for.
pub open spec fn message_view(r: Result<ClassifiedMessage, LineError>) -> Result<
    ClassifiedMessageView,
    LineError,
> {
    match r {
        Ok(message) => Ok(message@),
        Err(e) => Err(e),
    }
}

/// Tells the origin that `key` names to a bot of the name `nick`. It fails,
/// with `LineError::Classification`, exactly on a key that is none of the
/// fixed keys and holds no `!`.
pub fn parse_key(key: &str, nick: &str) -> (r: Result<Key, LineError>)
    ensures
        key_view(r) == parsed_key(key@, nick@),
{
    if str_eq(key, SERVER_KEY) {
        return Ok(Key::Server);
    }
    if str_eq(key, PING) {
        return Ok(Key::Ping);
    }
    let mut me = String::from_str(":");
    me.append(nick);
    if str_eq(key, me.as_str()) {
        return Ok(Key::Me);
    }
    let chars = chars_of(key);
    let bang: usize = find_char(chars.as_slice(), '!');
    if bang < chars.len() {
        let before = key.substring_char(0, bang);
        assert(key@.subrange(0, bang as int) =~= key@.take(bang as int));
        Ok(Key::Nick(String::from_str(strip_colon(before))))
    } else {
        Err(LineError::Classification)
    }
}

/// Classifies `line` for a bot of the name `nick`. It fails exactly where
/// `parse_key` fails on the line's key.
pub fn classify(line: &str, nick: &str) -> (r: Result<ClassifiedMessage, LineError>)
    ensures
        message_view(r) == classified(line@, nick@),
{
    let (key, rest) = split_token(line);
    let content = match rest {
        Some(rest) => String::from_str(rest),
        None => String::new(),
    };
    match parse_key(key, nick) {
        Ok(Key::Server) => Ok(ClassifiedMessage::FromServer),
        Ok(Key::Ping) => Ok(ClassifiedMessage::KeepAlivePing(content)),
        Ok(Key::Me) => Ok(ClassifiedMessage::FromSelf(content)),
        Ok(Key::Nick(name)) => Ok(ClassifiedMessage::FromPeer { name, content }),
        Err(e) => Err(e),
    }
}

/// Classification is a function of the line and the nickname: whatever
/// `classify` answers twice for the same line and nickname stands for the
/// same message, or is the same error.
pub proof fn lemma_classify_is_pure(
    line: Seq<char>,
    nick: Seq<char>,
    first: Result<ClassifiedMessage, LineError>,
    second: Result<ClassifiedMessage, LineError>,
)
    requires
        message_view(first) == classified(line, nick),
        message_view(second) == classified(line, nick),
    ensures
        message_view(first) == message_view(second),
{
}

} // verus!
