//! The session: what the bot knows of itself, and what it does with each
//! line that arrives.
//!
//! A `Bot` touches no transport. Bytes that were read are handed to `feed`;
//! what the bot wants sent is queued, ready for the wire, and handed out by
//! `take_outbox`. Every step is specified as a function on `BotView`.

use crate::line_buffer::{
    after_first_line, fed, first_line, has_line, lossy_text, LineBuffer, LineBufferView, NextLine,
    NEWLINE,
};
use crate::message::{
    classified, classify, key_view, parsed_key, ClassifiedMessage, ClassifiedMessageView, Key,
    LineError,
};
use crate::phrases::{
    bid_farewell, bored_phrase, bored_phrases, farewell, greet, greeting, phrase, remark_on_topic,
    say_to, topic_remark, BORED, SAYS,
};
use crate::protocol::{
    self, join_command, nick_command, pong_command, privmsg_command, user_command, CRLF, JOIN, MODE,
    PRIVMSG, QUIT, TOPIC,
};
use crate::respond::{replies, respond};
use crate::rng::{advance, drawn, Rng};
use crate::text::{
    after_token, has_rest, head_token, lemma_first_index, split_token, str_eq, strip_colon,
    without_colon,
};
use vstd::prelude::*;
use vstd::utf8::{decode_utf8, valid_utf8};

verus! {

/// Seconds between two idle ticks.
pub const IDLE_PERIOD: u64 = 300;

/// What a `Bot` stands for.
pub struct BotView {
    /// The name that the bot goes by.
    pub nick: Seq<char>,
    /// The channel that the bot joins.
    pub channel: Seq<char>,
    /// Whether the channel has been joined.
    pub joined: bool,
    /// The state of the generator that the bot draws from.
    pub rng: u64,
    /// The lines that arrived and were not read yet.
    pub unread: LineBufferView,
    /// The lines to send, oldest first, each with its terminator.
    pub outbox: Seq<Seq<char>>,
}

/// The session of a bot named `nick` for `channel` at its start: not joined,
/// nothing read, nothing to send, the generator in the state `seed`.
pub open spec fn started(nick: Seq<char>, channel: Seq<char>, seed: u64) -> BotView {
    BotView {
        nick,
        channel,
        joined: false,
        rng: seed,
        unread: LineBufferView { stream: Seq::empty(), closed: false },
        outbox: Seq::empty(),
    }
}

/// `b` with `message` queued for sending, followed by the line terminator.
pub open spec fn sent(b: BotView, message: Seq<char>) -> BotView {
    BotView { outbox: b.outbox.push(message + CRLF@), ..b }
}

/// `b` after it said `text` in its channel. Before the channel is joined
/// nothing is said.
pub open spec fn said(b: BotView, text: Seq<char>) -> BotView {
    if b.joined {
        sent(b, privmsg_command(b.channel, text))
    } else {
        b
    }
}

/// `b` after it said each of `texts` in turn.
pub open spec fn said_all(b: BotView, texts: Seq<Seq<char>>) -> BotView
    decreases texts.len(),
{
    if texts.len() == 0 {
        b
    } else {
        said(said_all(b, texts.drop_last()), texts.last())
    }
}

/// `b` after it registered with the server: the `USER` and the `NICK`
/// command are queued.
pub open spec fn registered(b: BotView) -> BotView {
    sent(sent(b, user_command(b.nick)), nick_command(b.nick))
}

/// `b` after it joined its channel: the `JOIN` command is queued and the
/// session counts as joined. A session that has joined stays as it is.
pub open spec fn entered(b: BotView) -> BotView {
    if b.joined {
        b
    } else {
        BotView { joined: true, ..sent(b, join_command(b.channel)) }
    }
}

/// `b` after it directed a phrase at `name`: one draw picks the phrase.
pub open spec fn conversed(b: BotView, name: Seq<char>) -> BotView {
    said(BotView { rng: advance(b.rng), ..b }, phrase(drawn(b.rng, SAYS as u64) as int, name))
}

/// `b` after it answered `payload` from `speaker`.
pub open spec fn answered(b: BotView, speaker: Seq<char>, payload: Seq<char>) -> BotView {
    let (texts, rng) = replies(b.nick, speaker, payload, b.rng);
    said_all(BotView { rng, ..b }, texts)
}

/// `b` after an idle tick: one draw picks what is said out of boredom. The
/// draw is made also where the channel is not joined yet and nothing is
/// said.
pub open spec fn ticked(b: BotView) -> BotView {
    said(
        BotView { rng: advance(b.rng), ..b },
        bored_phrases()[drawn(b.rng, BORED as u64) as int],
    )
}

/// Whether `content` holds a first and a second white-space character, as
/// the content of a `PRIVMSG` with a channel and a text does.
pub open spec fn has_three_parts(content: Seq<char>) -> bool {
    has_rest(content) && has_rest(after_token(content))
}

/// `b` after the peer `name` sent `content`, and whether the line was
/// dropped. The command is the first token of the content.
///
/// - `JOIN`: a peer other than the bot is greeted.
/// - `PRIVMSG`: what follows the channel, without its leading colon, is
///   answered; a content without channel or text is malformed.
/// - `QUIT`: the peer is bid farewell.
/// - `TOPIC`: the change is remarked on.
/// - Any other command is passed over.
pub open spec fn routed(b: BotView, name: Seq<char>, content: Seq<char>) -> (
    BotView,
    Result<(), LineError>,
) {
    let command = head_token(content);
    if command == JOIN@ {
        if name != b.nick {
            (said(b, greeting(name)), Ok(()))
        } else {
            (b, Ok(()))
        }
    } else if command == PRIVMSG@ {
        if has_three_parts(content) {
            (answered(b, name, without_colon(after_token(after_token(content)))), Ok(()))
        } else {
            (b, Err(LineError::MalformedCommand))
        }
    } else if command == QUIT@ {
        (said_all(b, farewell(name)), Ok(()))
    } else if command == TOPIC@ {
        (said(b, topic_remark(name)), Ok(()))
    } else {
        (b, Ok(()))
    }
}

/// Whether `content`, of a line about the bot itself, confirms its mode.
pub open spec fn confirms_mode(content: Seq<char>) -> bool {
    head_token(content) == MODE@
}

/// `b` after `line` arrived, and whether the line was dropped.
///
/// - A line of the server is a formality.
/// - A ping is answered with `PONG` and the ping's token.
/// - The first confirmation of the bot's mode makes it join its channel and
///   direct a phrase at itself; any other line about the bot is passed over.
/// - A peer's line is routed by its command.
/// - A line that cannot be classified is dropped.
pub open spec fn handled(b: BotView, line: Seq<char>) -> (BotView, Result<(), LineError>) {
    match classified(line, b.nick) {
        Ok(ClassifiedMessageView::FromServer) => (b, Ok(())),
        Ok(ClassifiedMessageView::KeepAlivePing(token)) => (sent(b, pong_command(token)), Ok(())),
        Ok(ClassifiedMessageView::FromSelf(content)) => {
            if confirms_mode(content) && !b.joined {
                (conversed(entered(b), b.nick), Ok(()))
            } else {
                (b, Ok(()))
            }
        },
        Ok(ClassifiedMessageView::FromPeer { name, content }) => routed(b, name, content),
        Err(e) => (b, Err(e)),
    }
}

/// `b` with the first of its unread lines taken out.
pub open spec fn consumed(b: BotView) -> BotView {
    BotView {
        unread: LineBufferView {
            stream: after_first_line(b.unread.stream),
            closed: b.unread.closed,
        },
        ..b
    }
}

/// Handling a line leaves the unread lines as they are.
pub proof fn lemma_handled_keeps_unread(b: BotView, line: Seq<char>)
    ensures
        handled(b, line).0.unread == b.unread,
{
    match classified(line, b.nick) {
        Ok(ClassifiedMessageView::FromPeer { name, content }) => {
            lemma_routed_keeps_unread(b, name, content);
        },
        _ => {},
    }
}

/// Saying things leaves the unread lines as they are.
pub proof fn lemma_said_all_keeps_unread(b: BotView, texts: Seq<Seq<char>>)
    ensures
        said_all(b, texts).unread == b.unread,
        said_all(b, texts).joined == b.joined,
    decreases texts.len(),
{
    if texts.len() > 0 {
        lemma_said_all_keeps_unread(b, texts.drop_last());
    }
}

/// Routing a peer's line leaves the unread lines as they are.
pub proof fn lemma_routed_keeps_unread(b: BotView, name: Seq<char>, content: Seq<char>)
    ensures
        routed(b, name, content).0.unread == b.unread,
{
    lemma_said_all_keeps_unread(b, farewell(name));
    let payload = without_colon(after_token(after_token(content)));
    let (texts, rng) = replies(b.nick, name, payload, b.rng);
    lemma_said_all_keeps_unread(BotView { rng, ..b }, texts);
}

/// `b` after every complete line that it holds unread was read and handled,
/// oldest first, and the errors of the lines that were dropped, in order.
pub open spec fn interacted(b: BotView) -> (BotView, Seq<LineError>)
    decreases b.unread.stream.len(),
{
    if has_line(b.unread.stream) {
        let text = lossy_text(first_line(b.unread.stream));
        let (next, outcome) = handled(consumed(b), text);
        proof {
            lemma_first_index(b.unread.stream, |x: u8| x == NEWLINE);
            lemma_handled_keeps_unread(consumed(b), text);
        }
        let (last, dropped) = interacted(next);
        match outcome {
            Ok(_) => (last, dropped),
            Err(e) => (last, seq![e] + dropped),
        }
    } else {
        (b, Seq::empty())
    }
}

/// A chat bot's session on one channel.
pub struct Bot {
    /// Name to register under.
    nick: String,
    /// Channel to join.
    channel: String,
    /// Whether the channel has been joined.
    joined: bool,
    /// Generator for choosing what to say.
    rng: Rng,
    /// What arrived from the server and was not read yet.
    unread: LineBuffer,
    /// What is to be sent to the server.
    outbox: Vec<String>,
}

impl View for Bot {
    type V = BotView;

    closed spec fn view(&self) -> BotView {
        BotView {
            nick: self.nick@,
            channel: self.channel@,
            joined: self.joined,
            rng: self.rng@,
            unread: self.unread@,
            outbox: self.outbox.deep_view(),
        }
    }
}

impl Bot {
    /// A session for a bot named `nick` on `channel`, whose generator starts
    /// from `seed`.
    pub fn new(nick: String, channel: String, seed: u64) -> (bot: Bot)
        ensures
            bot@ == started(nick@, channel@, seed),
    {
        let bot = Bot {
            nick,
            channel,
            joined: false,
            rng: Rng::new(seed),
            unread: LineBuffer::new(),
            outbox: Vec::new(),
        };
        assert(bot.outbox.deep_view() =~= Seq::<Seq<char>>::empty());
        bot
    }

    /// The name that the bot goes by.
    pub fn nick(&self) -> (r: &str)
        ensures
            r@ == self@.nick,
    {
        self.nick.as_str()
    }

    /// The channel that the bot joins.
    pub fn channel(&self) -> (r: &str)
        ensures
            r@ == self@.channel,
    {
        self.channel.as_str()
    }

    /// Whether the channel has been joined.
    pub fn is_joined(&self) -> (r: bool)
        ensures
            r == self@.joined,
    {
        self.joined
    }

    /// Whether the end of the stream was seen.
    pub fn is_closed(&self) -> (r: bool)
        ensures
            r == self@.unread.closed,
    {
        self.unread.is_closed()
    }

    /// Queues the registration with the server: user name and nick.
    pub fn init(&mut self)
        ensures
            final(self)@ == registered(old(self)@),
    {
        self.writeln(protocol::user(self.nick.as_str()));
        self.writeln(protocol::nick(self.nick.as_str()));
    }

    /// Takes in one chunk of bytes as it was read from the server. An empty
    /// chunk tells that the connection is closed.
    pub fn feed(&mut self, chunk: &[u8])
        ensures
            final(self)@ == (BotView { unread: fed(old(self)@.unread, chunk@), ..old(self)@ }),
    {
        self.unread.feed(chunk);
    }

    /// Reads the next line from the server, if a complete one has arrived.
    pub fn read_line(&mut self) -> (r: NextLine)
        ensures
            has_line(old(self)@.unread.stream) ==> {
                &&& r matches NextLine::Line(text)
                &&& text@ == lossy_text(first_line(old(self)@.unread.stream))
                &&& (valid_utf8(first_line(old(self)@.unread.stream)) ==> text@ == decode_utf8(
                    first_line(old(self)@.unread.stream),
                ))
                &&& final(self)@ == consumed(old(self)@)
            },
            !has_line(old(self)@.unread.stream) ==> {
                &&& final(self)@ == old(self)@
                &&& (old(self)@.unread.closed ==> r is EndOfStream)
                &&& (!old(self)@.unread.closed ==> r is Empty)
            },
    {
        self.unread.next_line()
    }

    /// Queues `message` for the server, with the line terminator behind it.
    pub fn writeln(&mut self, message: String)
        ensures
            final(self)@ == sent(old(self)@, message@),
    {
        let mut line = message;
        line.append(CRLF);
        self.outbox.push(line);
        assert(self.outbox.deep_view() =~= old(self).outbox.deep_view().push(message@ + CRLF@));
    }

    /// Says something in the channel. Does nothing where the channel has not
    /// been joined yet.
    pub fn say(&mut self, text: String)
        ensures
            final(self)@ == said(old(self)@, text@),
    {
        if !self.joined {
            return ;
        }
        self.writeln(protocol::privmsg(self.channel.as_str(), text.as_str()));
    }

    /// Says each of `texts` in the channel, in order.
    pub fn say_all(&mut self, texts: Vec<String>)
        ensures
            final(self)@ == said_all(old(self)@, texts.deep_view()),
    {
        let ghost all = texts.deep_view();
        let mut i: usize = 0;
        while i < texts.len()
            invariant
                i <= texts@.len(),
                all == texts.deep_view(),
                self@ == said_all(old(self)@, all.take(i as int)),
            decreases texts@.len() - i,
        {
            proof {
                let next = all.take(i + 1);
                assert(next.drop_last() =~= all.take(i as int));
                assert(next.last() == texts@[i as int]@);
            }
            self.say(texts[i].clone());
            i += 1;
        }
        assert(all.take(i as int) =~= all);
    }

    /// Directs a phrase at `name`.
    pub fn converse(&mut self, name: &str)
        ensures
            final(self)@ == conversed(old(self)@, name@),
    {
        let i: usize = self.rng.index(SAYS);
        self.say(say_to(i, name));
    }

    /// Joins the bot's channel, unless it has joined already.
    pub fn join(&mut self)
        ensures
            final(self)@ == entered(old(self)@),
    {
        if self.joined {
            return ;
        }
        self.writeln(protocol::join(self.channel.as_str()));
        self.joined = true;
    }

    /// Says something unprompted, as the idle timer asks for on each tick.
    pub fn idle_tick(&mut self)
        ensures
            final(self)@ == ticked(old(self)@),
    {
        let i: usize = self.rng.index(BORED);
        self.say(String::from_str(bored_phrase(i)));
    }

    /// Responds to what the peer `name` sent. The line is dropped, with
    /// `LineError::MalformedCommand`, exactly where it is a `PRIVMSG` without
    /// channel or text.
    pub fn respond_to(&mut self, name: &str, content: &str) -> (r: Result<(), LineError>)
        ensures
            (final(self)@, r) == routed(old(self)@, name@, content@),
    {
        let (command, rest) = split_token(content);
        if str_eq(command, JOIN) {
            if !str_eq(name, self.nick.as_str()) {
                self.say(greet(name));
            }
            Ok(())
        } else if str_eq(command, PRIVMSG) {
            let text = match rest {
                Some(rest) => split_token(rest).1,
                None => None,
            };
            match text {
                Some(text) => {
                    self.respond_to_privmsg(name, strip_colon(text));
                    Ok(())
                },
                None => Err(LineError::MalformedCommand),
            }
        } else if str_eq(command, QUIT) {
            self.say_all(bid_farewell(name));
            Ok(())
        } else if str_eq(command, TOPIC) {
            self.say(remark_on_topic(name));
            Ok(())
        } else {
            Ok(())
        }
    }

    /// Responds to a message that the peer `name` said in the channel.
    pub fn respond_to_privmsg(&mut self, name: &str, content: &str)
        ensures
            final(self)@ == answered(old(self)@, name@, content@),
    {
        let texts = respond(self.nick.as_str(), name, content, &mut self.rng);
        self.say_all(texts);
    }

    /// Tells the origin that a line's key names.
    pub fn parse_key(&self, key: &str) -> (r: Result<Key, LineError>)
        ensures
            key_view(r) == parsed_key(key@, self@.nick),
    {
        crate::message::parse_key(key, self.nick.as_str())
    }

    /// Acts on one line from the server. The line is dropped, with the error
    /// that says why, where it cannot be classified or is a malformed
    /// `PRIVMSG`.
    pub fn handle_line(&mut self, line: &str) -> (r: Result<(), LineError>)
        ensures
            (final(self)@, r) == handled(old(self)@, line@),
    {
        match classify(line, self.nick.as_str()) {
            Ok(ClassifiedMessage::FromServer) => Ok(()),
            Ok(ClassifiedMessage::KeepAlivePing(token)) => {
                self.writeln(protocol::pong(token.as_str()));
                Ok(())
            },
            Ok(ClassifiedMessage::FromSelf(content)) => {
                let (command, _rest) = split_token(content.as_str());
                if str_eq(command, MODE) && !self.joined {
                    self.join();
                    let me = self.nick.clone();
                    self.converse(me.as_str());
                }
                Ok(())
            },
            Ok(ClassifiedMessage::FromPeer { name, content }) => self.respond_to(
                name.as_str(),
                content.as_str(),
            ),
            Err(e) => Err(e),
        }
    }

    /// Reads and handles every complete line that has arrived, oldest first.
    /// The errors of the lines that were dropped come back, in order.
    pub fn interact(&mut self) -> (dropped: Vec<LineError>)
        ensures
            (final(self)@, dropped@) == interacted(old(self)@),
    {
        let mut dropped: Vec<LineError> = Vec::new();
        loop
            invariant
                interacted(old(self)@) == (interacted(self@).0, dropped@ + interacted(self@).1),
            ensures
                (self@, dropped@) == interacted(old(self)@),
            decreases self@.unread.stream.len(),
        {
            let ghost before = self@;
            proof {
                lemma_first_index(before.unread.stream, |x: u8| x == NEWLINE);
            }
            match self.read_line() {
                NextLine::Line(text) => {
                    proof {
                        lemma_handled_keeps_unread(consumed(before), text@);
                    }
                    let outcome = self.handle_line(text.as_str());
                    let ghost rest = interacted(self@).1;
                    let ghost earlier = dropped@;
                    if let Err(e) = outcome {
                        dropped.push(e);
                        assert(dropped@ + rest =~= earlier + (seq![e] + rest));
                    }
                },
                _ => {
                    assert(dropped@ + Seq::<LineError>::empty() =~= dropped@);
                    break ;
                },
            }
        }
        dropped
    }

    /// Hands out what is queued for the server, oldest first, and empties the
    /// queue. Each line stands as it goes on the wire.
    pub fn take_outbox(&mut self) -> (lines: Vec<String>)
        ensures
            lines.deep_view() == old(self)@.outbox,
            final(self)@ == (BotView { outbox: Seq::empty(), ..old(self)@ }),
    {
        let mut lines: Vec<String> = Vec::new();
        std::mem::swap(&mut self.outbox, &mut lines);
        assert(self.outbox.deep_view() =~= Seq::<Seq<char>>::empty());
        lines
    }
}

} // verus!
