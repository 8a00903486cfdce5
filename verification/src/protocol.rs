//! The words of the protocol: the keys and commands that the bot listens
//! for, and the commands that it sends.

use vstd::prelude::*;

verus! {

/// The key of the lines that the server sends on its own behalf.
pub const SERVER_KEY: &'static str = ":concrete.mozilla.org";

/// The key of a keep-alive ping.
pub const PING: &'static str = "PING";

/// The command by which the server confirms the bot's mode.
pub const MODE: &'static str = "MODE";

/// The command of a peer that joined the channel.
pub const JOIN: &'static str = "JOIN";

/// The command of a peer that said something.
pub const PRIVMSG: &'static str = "PRIVMSG";

/// The command of a peer that left the server.
pub const QUIT: &'static str = "QUIT";

/// The command of a peer that changed the channel's topic.
pub const TOPIC: &'static str = "TOPIC";

/// What ends every line that the bot sends.
pub const CRLF: &'static str = "\r\n";

/// The command that registers the user `nick`.
pub open spec fn user_command(nick: Seq<char>) -> Seq<char> {
    "USER "@ + nick + " 8 * :"@ + nick
}

/// The command that asks for the name `nick`.
pub open spec fn nick_command(nick: Seq<char>) -> Seq<char> {
    "NICK "@ + nick
}

/// The command that joins `channel`.
pub open spec fn join_command(channel: Seq<char>) -> Seq<char> {
    "JOIN "@ + channel
}

/// The command that says `text` in `channel`.
pub open spec fn privmsg_command(channel: Seq<char>, text: Seq<char>) -> Seq<char> {
    "PRIVMSG "@ + channel + " :"@ + text
}

/// The answer to a ping that carried `token`.
pub open spec fn pong_command(token: Seq<char>) -> Seq<char> {
    "PONG "@ + token
}

/// The command that registers the user `name`.
pub fn user(name: &str) -> (r: String)
    ensures
        r@ == user_command(name@),
{
    let mut r = String::from_str("USER ");
    r.append(name);
    r.append(" 8 * :");
    r.append(name);
    r
}

/// The command that asks for the name `name`.
pub fn nick(name: &str) -> (r: String)
    ensures
        r@ == nick_command(name@),
{
    String::from_str("NICK ").concat(name)
}

/// The command that joins `channel`.
pub fn join(channel: &str) -> (r: String)
    ensures
        r@ == join_command(channel@),
{
    String::from_str("JOIN ").concat(channel)
}

/// The command that says `text` in `channel`.
pub fn privmsg(channel: &str, text: &str) -> (r: String)
    ensures
        r@ == privmsg_command(channel@, text@),
{
    let mut r = String::from_str("PRIVMSG ");
    r.append(channel);
    r.append(" :");
    r.append(text);
    r
}

/// The answer to a ping that carried `token`.
pub fn pong(token: &str) -> (r: String)
    ensures
        r@ == pong_command(token@),
{
    String::from_str("PONG ").concat(token)
}

} // verus!
