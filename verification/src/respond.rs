//! The choice of a reply to what a peer said.
//!
//! A message is first matched against the categories that the bot reacts
//! to. One of the matched categories is then drawn, and within it the reply.
//! All draws come from the session's generator, so the reply is a function of
//! the message and of the generator's state.

use crate::phrases::{
    major_laugh, major_laughs, minor_laugh, minor_laughs, mock, mocking, phrase, say_to, BIG_LAUGH,
    FILLER, MAJOR_LAUGHS, MINOR_LAUGHS, SAYS, WOW_REPLY,
};
use crate::rng::{advance, drawn, Rng};
use crate::text::{
    chars_of, contains_chars, contains_text, lower, lowered, strip_ws, trim_end, trimmed_end,
    without_ws,
};
use vstd::prelude::*;

verus! {

/// The word that the bot marvels at.
pub const WOW: &'static str = "wow";

/// One message in this many gets the filler reply where nothing matched.
pub const FILLER_ODDS: u64 = 25;

/// One mention of the bot's name in this many is answered by mocking.
pub const MOCKING_ODDS: u64 = 10;

/// What in a message the bot reacts to.
#[derive(Clone, Copy, Debug, PartialEq, Eq, Structural)]
pub enum ReplyCategory {
    /// The bot's own name occurs in the message.
    SelfNameMentioned,
    /// The message holds a small laugh and no big one.
    MinorLaugh,
    /// The message holds a big laugh.
    MajorLaugh,
    /// The message holds `wow`, in whatever case.
    WowMention,
}

/// Whether one of `tokens` occurs in `text`.
pub open spec fn has_any(text: Seq<char>, tokens: Seq<Seq<char>>) -> bool {
    exists|i: int| 0 <= i < tokens.len() && contains_text(text, #[trigger] tokens[i])
}

/// Whether `payload` mentions `nick`: the name occurs in the lower-cased
/// payload once its white space is taken out.
pub open spec fn mentions(nick: Seq<char>, payload: Seq<char>) -> bool {
    contains_text(without_ws(lowered(payload)), nick)
}

/// Whether `payload` holds a big laugh.
pub open spec fn has_major_laugh(payload: Seq<char>) -> bool {
    has_any(payload, major_laughs())
}

/// Whether `payload` holds a small laugh.
pub open spec fn has_minor_laugh(payload: Seq<char>) -> bool {
    has_any(payload, minor_laughs())
}

/// Whether `payload` holds `wow`, in whatever case.
pub open spec fn says_wow(payload: Seq<char>) -> bool {
    contains_text(lowered(payload), WOW@)
}

/// The laugh category of `payload`, if it has one. A big laugh hides a small
/// one.
pub open spec fn laugh(payload: Seq<char>) -> Seq<ReplyCategory> {
    if has_major_laugh(payload) {
        seq![ReplyCategory::MajorLaugh]
    } else if has_minor_laugh(payload) {
        seq![ReplyCategory::MinorLaugh]
    } else {
        Seq::empty()
    }
}

/// The categories that `payload` falls under for a bot of the name `nick`,
/// in the order in which they are looked for.
pub open spec fn matched(nick: Seq<char>, payload: Seq<char>) -> Seq<ReplyCategory> {
    let name = if mentions(nick, payload) {
        seq![ReplyCategory::SelfNameMentioned]
    } else {
        Seq::empty()
    };
    let wow = if says_wow(payload) {
        seq![ReplyCategory::WowMention]
    } else {
        Seq::empty()
    };
    name + laugh(payload) + wow
}

/// What a bot of the name `nick`, whose generator is in the state `rng`,
/// says to `payload` from `speaker`, and the state that the generator is
/// left in.
///
/// Where nothing matched, one draw decides whether the filler is said. Else
/// one draw picks the category among those matched. A mention of the name
/// then takes one draw to decide between mocking and a phrase, and another
/// for the phrase; a small laugh takes one draw for the laugh to answer
/// with; a big laugh and a `wow` have one fixed answer each.
pub open spec fn replies(nick: Seq<char>, speaker: Seq<char>, payload: Seq<char>, rng: u64) -> (
    Seq<Seq<char>>,
    u64,
) {
    let found = matched(nick, payload);
    if found.len() == 0 {
        if drawn(rng, FILLER_ODDS) == 0 {
            (seq![FILLER@], advance(rng))
        } else {
            (Seq::empty(), advance(rng))
        }
    } else {
        let picked = advance(rng);
        match found[drawn(rng, found.len() as u64) as int] {
            ReplyCategory::SelfNameMentioned => {
                let decided = advance(picked);
                if drawn(picked, MOCKING_ODDS) == 0 {
                    (mocking(speaker, trimmed_end(payload)), decided)
                } else {
                    (seq![phrase(drawn(decided, SAYS as u64) as int, speaker)], advance(decided))
                }
            },
            ReplyCategory::MinorLaugh => (
                seq![minor_laughs()[drawn(picked, MINOR_LAUGHS as u64) as int]],
                advance(picked),
            ),
            ReplyCategory::MajorLaugh => (seq![BIG_LAUGH@], picked),
            ReplyCategory::WowMention => (seq![WOW_REPLY@], picked),
        }
    }
}

/// Whether `text` holds a big laugh.
pub fn holds_major_laugh(text: &[char]) -> (r: bool)
    ensures
        r == has_major_laugh(text@),
{
    let mut i: usize = 0;
    while i < MAJOR_LAUGHS
        invariant
            i <= MAJOR_LAUGHS == major_laughs().len(),
            forall|k: int| 0 <= k < i ==> !contains_text(text@, #[trigger] major_laughs()[k]),
        decreases MAJOR_LAUGHS - i,
    {
        let token = chars_of(major_laugh(i));
        if contains_chars(text, token.as_slice()) {
            return true;
        }
        i += 1;
    }
    false
}

/// Whether `text` holds a small laugh.
pub fn holds_minor_laugh(text: &[char]) -> (r: bool)
    ensures
        r == has_minor_laugh(text@),
{
    let mut i: usize = 0;
    while i < MINOR_LAUGHS
        invariant
            i <= MINOR_LAUGHS == minor_laughs().len(),
            forall|k: int| 0 <= k < i ==> !contains_text(text@, #[trigger] minor_laughs()[k]),
        decreases MINOR_LAUGHS - i,
    {
        let token = chars_of(minor_laugh(i));
        if contains_chars(text, token.as_slice()) {
            return true;
        }
        i += 1;
    }
    false
}

/// The categories that `payload` falls under for a bot of the name `nick`.
/// A payload with a big laugh never counts as a small laugh, whatever else
/// it holds.
pub fn categories(nick: &str, payload: &str) -> (r: Vec<ReplyCategory>)
    ensures
        r@ == matched(nick@, payload@),
        has_major_laugh(payload@) ==> r@.contains(ReplyCategory::MajorLaugh) && !r@.contains(
            ReplyCategory::MinorLaugh,
        ),
{
    let text = chars_of(payload);
    let low = lower(text.as_slice());
    let dense = strip_ws(low.as_slice());
    let name = chars_of(nick);
    let word = chars_of(WOW);
    let mut r: Vec<ReplyCategory> = Vec::new();
    if contains_chars(dense.as_slice(), name.as_slice()) {
        r.push(ReplyCategory::SelfNameMentioned);
    }
    if holds_major_laugh(text.as_slice()) {
        r.push(ReplyCategory::MajorLaugh);
    } else if holds_minor_laugh(text.as_slice()) {
        r.push(ReplyCategory::MinorLaugh);
    }
    if contains_chars(low.as_slice(), word.as_slice()) {
        r.push(ReplyCategory::WowMention);
    }
    proof {
        assert(r@ =~= matched(nick@, payload@));
        lemma_major_hides_minor(nick@, payload@);
    }
    r
}

/// Category exclusivity: a payload that holds a big laugh falls under
/// `MajorLaugh` and not under `MinorLaugh`, also where it holds a small laugh
/// too. No payload falls under both.
pub proof fn lemma_major_hides_minor(nick: Seq<char>, payload: Seq<char>)
    ensures
        has_major_laugh(payload) ==> matched(nick, payload).contains(ReplyCategory::MajorLaugh),
        has_major_laugh(payload) ==> !matched(nick, payload).contains(ReplyCategory::MinorLaugh),
        !(matched(nick, payload).contains(ReplyCategory::MajorLaugh) && matched(
            nick,
            payload,
        ).contains(ReplyCategory::MinorLaugh)),
{
    let found = matched(nick, payload);
    let name: Seq<ReplyCategory> = if mentions(nick, payload) {
        seq![ReplyCategory::SelfNameMentioned]
    } else {
        Seq::empty()
    };
    if has_major_laugh(payload) {
        assert(found[name.len() as int] == ReplyCategory::MajorLaugh);
    }
}

/// Chooses what a bot of the name `nick` says to `payload` from `speaker`,
/// drawing from `rng`.
pub fn respond(nick: &str, speaker: &str, payload: &str, rng: &mut Rng) -> (r: Vec<String>)
    ensures
        r.deep_view() == replies(nick@, speaker@, payload@, old(rng)@).0,
        final(rng)@ == replies(nick@, speaker@, payload@, old(rng)@).1,
{
    let found = categories(nick, payload);
    let mut r: Vec<String> = Vec::new();
    if found.len() == 0 {
        if rng.one_in(FILLER_ODDS) {
            r.push(String::from_str(FILLER));
        }
        assert(r.deep_view() =~= replies(nick@, speaker@, payload@, old(rng)@).0);
        return r;
    }
    let pick: usize = rng.index(found.len());
    match found[pick] {
        ReplyCategory::SelfNameMentioned => {
            if rng.one_in(MOCKING_ODDS) {
                r = mock(speaker, trim_end(payload));
            } else {
                let i: usize = rng.index(SAYS);
                r.push(say_to(i, speaker));
            }
        },
        ReplyCategory::MinorLaugh => {
            let i: usize = rng.index(MINOR_LAUGHS);
            r.push(String::from_str(minor_laugh(i)));
        },
        ReplyCategory::MajorLaugh => {
            r.push(String::from_str(BIG_LAUGH));
        },
        ReplyCategory::WowMention => {
            r.push(String::from_str(WOW_REPLY));
        },
    }
    assert(r.deep_view() =~= replies(nick@, speaker@, payload@, old(rng)@).0);
    r
}

/// Determinism: two generators in the same state give the same replies to
/// the same message and are left in the same state.
pub proof fn lemma_same_state_same_replies(
    nick: Seq<char>,
    speaker: Seq<char>,
    payload: Seq<char>,
    one: Rng,
    other: Rng,
)
    requires
        one@ == other@,
    ensures
        replies(nick, speaker, payload, one@) == replies(nick, speaker, payload, other@),
{
}

} // verus!
