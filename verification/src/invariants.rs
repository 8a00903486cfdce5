//! What holds of a session over every run: the channel is joined once and
//! for all, and a run is a function of the seed and of the lines that arrive.

use crate::bot::{
    confirms_mode, entered, handled, routed, said, said_all, sent, started, ticked, BotView,
};
use crate::message::{classified, ClassifiedMessageView};
use crate::phrases::{bored_phrases, farewell, greeting, phrase, topic_remark, BORED, SAYS};
use crate::protocol::{join_command, pong_command, privmsg_command, CRLF};
use crate::respond::replies;
use crate::rng::{advance, drawn};
use crate::text::{after_token, without_colon};
use vstd::prelude::*;

verus! {

/// Whether `line`, as it stands in the outbox, is a `JOIN` command.
pub open spec fn is_join(line: Seq<char>) -> bool {
    line.len() >= 5 && line.take(5) == "JOIN "@
}

/// Number of `JOIN` commands among `lines`.
pub open spec fn joins(lines: Seq<Seq<char>>) -> nat {
    lines.filter(|line: Seq<char>| is_join(line)).len()
}

/// Whether `line` makes a bot of the name `nick` join, if it has not joined
/// yet: it is about the bot itself and confirms its mode.
pub open spec fn asks_to_join(line: Seq<char>, nick: Seq<char>) -> bool {
    classified(line, nick) matches Ok(ClassifiedMessageView::FromSelf(content))
        && confirms_mode(content)
}

/// `b` after each of `lines` arrived and was handled in turn.
pub open spec fn handled_all(b: BotView, lines: Seq<Seq<char>>) -> BotView
    decreases lines.len(),
{
    if lines.len() == 0 {
        b
    } else {
        handled(handled_all(b, lines.drop_last()), lines.last()).0
    }
}

proof fn lemma_joins_push(lines: Seq<Seq<char>>, line: Seq<char>)
    ensures
        joins(lines.push(line)) == joins(lines) + (if is_join(line) {
            1nat
        } else {
            0nat
        }),
{
    let pushed = lines.push(line);
    assert(pushed.drop_last() =~= lines);
    assert(pushed.last() == line);
    reveal_with_fuel(Seq::filter, 2);
}

proof fn lemma_sent_joins(b: BotView, message: Seq<char>)
    requires
        message.len() >= 5,
    ensures
        joins(sent(b, message).outbox) == joins(b.outbox) + (if message.take(5) == "JOIN "@ {
            1nat
        } else {
            0nat
        }),
{
    let line = message + CRLF@;
    assert(line.take(5) =~= message.take(5));
    lemma_joins_push(b.outbox, line);
}

proof fn lemma_said_joins(b: BotView, text: Seq<char>)
    ensures
        joins(said(b, text).outbox) == joins(b.outbox),
        said(b, text).joined == b.joined,
        said(b, text).nick == b.nick,
{
    if b.joined {
        reveal_strlit("PRIVMSG ");
        reveal_strlit("JOIN ");
        let message = privmsg_command(b.channel, text);
        assert(message.take(5)[0] == 'P');
        assert("JOIN "@[0] == 'J');
        lemma_sent_joins(b, message);
    }
}

proof fn lemma_said_all_joins(b: BotView, texts: Seq<Seq<char>>)
    ensures
        joins(said_all(b, texts).outbox) == joins(b.outbox),
        said_all(b, texts).joined == b.joined,
        said_all(b, texts).nick == b.nick,
    decreases texts.len(),
{
    if texts.len() > 0 {
        lemma_said_all_joins(b, texts.drop_last());
        lemma_said_joins(said_all(b, texts.drop_last()), texts.last());
    }
}

proof fn lemma_routed_joins(b: BotView, name: Seq<char>, content: Seq<char>)
    ensures
        joins(routed(b, name, content).0.outbox) == joins(b.outbox),
        routed(b, name, content).0.joined == b.joined,
        routed(b, name, content).0.nick == b.nick,
{
    lemma_said_joins(b, greeting(name));
    lemma_said_joins(b, topic_remark(name));
    lemma_said_all_joins(b, farewell(name));
    let payload = without_colon(after_token(after_token(content)));
    let (texts, rng) = replies(b.nick, name, payload, b.rng);
    lemma_said_all_joins(BotView { rng, ..b }, texts);
}

/// One line makes the bot join exactly where it has not joined yet and the
/// line asks for it; the `JOIN` command is then queued once. Any other line
/// queues no `JOIN` command and leaves the session joined or not as it was.
pub proof fn lemma_handled_joins(b: BotView, line: Seq<char>)
    ensures
        handled(b, line).0.joined == (b.joined || asks_to_join(line, b.nick)),
        handled(b, line).0.nick == b.nick,
        joins(handled(b, line).0.outbox) == joins(b.outbox) + (if !b.joined && asks_to_join(
            line,
            b.nick,
        ) {
            1nat
        } else {
            0nat
        }),
{
    match classified(line, b.nick) {
        Ok(ClassifiedMessageView::KeepAlivePing(token)) => {
            reveal_strlit("PONG ");
            reveal_strlit("JOIN ");
            let message = pong_command(token);
            assert(message.take(5)[0] == 'P');
            assert("JOIN "@[0] == 'J');
            lemma_sent_joins(b, message);
        },
        Ok(ClassifiedMessageView::FromSelf(content)) => {
            if confirms_mode(content) && !b.joined {
                reveal_strlit("JOIN ");
                let message = join_command(b.channel);
                assert(message.take(5) =~= "JOIN "@);
                lemma_sent_joins(b, message);
                let inside = entered(b);
                lemma_said_joins(
                    BotView { rng: advance(inside.rng), ..inside },
                    phrase(drawn(inside.rng, SAYS as u64) as int, b.nick),
                );
            }
        },
        Ok(ClassifiedMessageView::FromPeer { name, content }) => {
            lemma_routed_joins(b, name, content);
        },
        _ => {},
    }
}

/// The join fires once. Whatever lines arrive, a session that has joined
/// stays joined and queues no further `JOIN` command; one that has not
/// joined queues exactly one if a line asks for it, and none if no line
/// does.
pub proof fn lemma_join_fires_once(b: BotView, lines: Seq<Seq<char>>)
    ensures
        handled_all(b, lines).nick == b.nick,
        b.joined ==> handled_all(b, lines).joined,
        handled_all(b, lines).joined == (b.joined || exists|i: int|
            0 <= i < lines.len() && asks_to_join(#[trigger] lines[i], b.nick)),
        joins(handled_all(b, lines).outbox) == joins(b.outbox) + (if !b.joined && handled_all(
            b,
            lines,
        ).joined {
            1nat
        } else {
            0nat
        }),
    decreases lines.len(),
{
    if lines.len() > 0 {
        let earlier = lines.drop_last();
        let before = handled_all(b, earlier);
        lemma_join_fires_once(b, earlier);
        lemma_handled_joins(before, lines.last());
        if exists|i: int| 0 <= i < earlier.len() && asks_to_join(#[trigger] earlier[i], b.nick) {
            let i = choose|i: int|
                0 <= i < earlier.len() && asks_to_join(#[trigger] earlier[i], b.nick);
            assert(lines[i] == earlier[i]);
        }
        if asks_to_join(lines.last(), b.nick) {
            assert(lines[lines.len() - 1] == lines.last());
        }
        if exists|i: int| 0 <= i < lines.len() && asks_to_join(#[trigger] lines[i], b.nick) {
            let i = choose|i: int| 0 <= i < lines.len() && asks_to_join(#[trigger] lines[i], b.nick);
            if i < earlier.len() {
                assert(earlier[i] == lines[i]);
            }
        }
    }
}

/// An idle tick queues no `JOIN` command and leaves the session joined or
/// not as it was.
pub proof fn lemma_ticked_joins(b: BotView)
    ensures
        ticked(b).joined == b.joined,
        joins(ticked(b).outbox) == joins(b.outbox),
{
    lemma_said_joins(
        BotView { rng: advance(b.rng), ..b },
        bored_phrases()[drawn(b.rng, BORED as u64) as int],
    );
}

/// A run is a function of its start: two sessions made for the same name and
/// channel from the same seed, to which the same lines arrive, end in the
/// same state, with the same lines queued for sending.
pub proof fn lemma_same_seed_same_run(
    nick: Seq<char>,
    channel: Seq<char>,
    seed: u64,
    lines: Seq<Seq<char>>,
    one: BotView,
    other: BotView,
)
    requires
        one == started(nick, channel, seed),
        other == started(nick, channel, seed),
    ensures
        handled_all(one, lines) == handled_all(other, lines),
        handled_all(one, lines).outbox == handled_all(other, lines).outbox,
{
}

} // verus!
