//! The bot's canned phrases and the tokens it listens for.
//!
//! Each table is a spec function that lists its entries, and an executable
//! function that hands out the entry at an index.

use vstd::prelude::*;

verus! {

/// Number of small laughs.
pub const MINOR_LAUGHS: usize = 5;

/// Number of big laughs.
pub const MAJOR_LAUGHS: usize = 3;

/// Number of things to say out of boredom.
pub const BORED: usize = 10;

/// Number of phrases that the bot directs at a name.
pub const SAYS: usize = 8;

/// The tokens of a small laugh. They are looked for as they are written.
pub open spec fn minor_laughs() -> Seq<Seq<char>> {
    seq!["lol"@, "haha"@, "hehe"@, "jaja"@, "hoho"@]
}

/// The tokens of a big laugh. They are looked for as they are written, so
/// `LOL` is a big laugh and `lol` a small one.
pub open spec fn major_laughs() -> Seq<Seq<char>> {
    seq!["rofl"@, "lmao"@, "LOL"@]
}

/// What the bot says unprompted when the channel has been silent.
pub open spec fn bored_phrases() -> Seq<Seq<char>> {
    seq![
        "are we playing the silence game"@,
        "hey guys? question"@,
        "bananas, you there? I got a question about my implementation"@,
        "wait I have to think about the phrasing of this give me a sec."@,
        "and then he was like 'oh chaz you so funny'"@,
        "ok, HERE IT IS:"@,
        "but for real guys"@,
        "i just had the craziest idea"@,
        "do i make any of you uncomfortable?"@,
        "so before I tell you my idea, there's one thing I need to know..."@,
    ]
}

/// The phrase of index `i` among those directed at `name`. Some of them
/// hold the name, some do not.
pub open spec fn phrase(i: int, name: Seq<char>) -> Seq<char> {
    if i == 0 {
        "Ohaiii"@
    } else if i == 1 {
        "good dogge :]"@
    } else if i == 2 {
        "wow"@
    } else if i == 3 {
        "such chaz"@
    } else if i == 4 {
        "very chaz, "@ + name
    } else if i == 5 {
        name + " pls"@
    } else if i == 6 {
        name + "                       :}"@
    } else {
        "you're doing it, "@ + name
    }
}

/// The reply to a big laugh.
pub const BIG_LAUGH: &'static str = "LOLOLOLLLLLL";

/// The reply to a `wow`.
pub const WOW_REPLY: &'static str = "wowowow doogie hauser";

/// What the bot says, now and then, to a message that it has no reply to.
pub const FILLER: &'static str = "lol i don't even know what to say lol bc i'm a bot :-(";

/// The greeting of a peer that joined.
pub open spec fn greeting(name: Seq<char>) -> Seq<char> {
    "and then "@ + name + " made the stupidest fa-- oh, hey "@ + name
        + ", didn't see you there buddy"@
}

/// The two remarks on a peer that quit.
pub open spec fn farewell(name: Seq<char>) -> Seq<Seq<char>> {
    seq![
        "did you see the way "@ + name + " left like that?"@,
        "that's just, like, classic him."@,
    ]
}

/// The remark on a peer that changed the topic.
pub open spec fn topic_remark(name: Seq<char>) -> Seq<char> {
    "what was wrong with the old topic, "@ + name + "?"@
}

/// The three lines that mock `speaker` by quoting `quote`.
pub open spec fn mocking(speaker: Seq<char>, quote: Seq<char>) -> Seq<Seq<char>> {
    seq![
        "and then "@ + speaker + " was all like"@,
        "\""@ + quote + "\""@,
        "you're better than that, "@ + speaker
            + " -- that's what your mom would always say: \"You're better than that, "@ + speaker
            + ".\""@,
    ]
}

/// The entry of index `i` of `minor_laughs`.
pub fn minor_laugh(i: usize) -> (r: &'static str)
    requires
        i < MINOR_LAUGHS,
    ensures
        r@ == minor_laughs()[i as int],
{
    match i {
        0 => "lol",
        1 => "haha",
        2 => "hehe",
        3 => "jaja",
        _ => "hoho",
    }
}

/// The entry of index `i` of `major_laughs`.
pub fn major_laugh(i: usize) -> (r: &'static str)
    requires
        i < MAJOR_LAUGHS,
    ensures
        r@ == major_laughs()[i as int],
{
    match i {
        0 => "rofl",
        1 => "lmao",
        _ => "LOL",
    }
}

/// The entry of index `i` of `bored_phrases`.
pub fn bored_phrase(i: usize) -> (r: &'static str)
    requires
        i < BORED,
    ensures
        r@ == bored_phrases()[i as int],
{
    match i {
        0 => "are we playing the silence game",
        1 => "hey guys? question",
        2 => "bananas, you there? I got a question about my implementation",
        3 => "wait I have to think about the phrasing of this give me a sec.",
        4 => "and then he was like 'oh chaz you so funny'",
        5 => "ok, HERE IT IS:",
        6 => "but for real guys",
        7 => "i just had the craziest idea",
        8 => "do i make any of you uncomfortable?",
        _ => "so before I tell you my idea, there's one thing I need to know...",
    }
}

/// A greeting.
pub fn ohai(_name: &str) -> (r: String)
    ensures
        r@ == phrase(0, _name@),
{
    String::from_str("Ohaiii")
}

/// Praise.
pub fn doge(_name: &str) -> (r: String)
    ensures
        r@ == phrase(1, _name@),
{
    String::from_str("good dogge :]")
}

/// Amazement.
pub fn wow(_name: &str) -> (r: String)
    ensures
        r@ == phrase(2, _name@),
{
    String::from_str("wow")
}

/// Self-regard.
pub fn such_chaz(_name: &str) -> (r: String)
    ensures
        r@ == phrase(3, _name@),
{
    String::from_str("such chaz")
}

/// Self-regard, told to `name`.
pub fn very_chaz(name: &str) -> (r: String)
    ensures
        r@ == phrase(4, name@),
{
    String::from_str("very chaz, ").concat(name)
}

/// A plea to `name`.
pub fn pls(name: &str) -> (r: String)
    ensures
        r@ == phrase(5, name@),
{
    String::from_str(name).concat(" pls")
}

/// A face made at `name`.
pub fn dolan(name: &str) -> (r: String)
    ensures
        r@ == phrase(6, name@),
{
    String::from_str(name).concat("                       :}")
}

/// Encouragement for `name`.
pub fn doing_it(name: &str) -> (r: String)
    ensures
        r@ == phrase(7, name@),
{
    String::from_str("you're doing it, ").concat(name)
}

/// The phrase of index `i` among those directed at `name`.
pub fn say_to(i: usize, name: &str) -> (r: String)
    requires
        i < SAYS,
    ensures
        r@ == phrase(i as int, name@),
{
    match i {
        0 => ohai(name),
        1 => doge(name),
        2 => wow(name),
        3 => such_chaz(name),
        4 => very_chaz(name),
        5 => pls(name),
        6 => dolan(name),
        _ => doing_it(name),
    }
}

/// The greeting of a peer that joined.
pub fn greet(name: &str) -> (r: String)
    ensures
        r@ == greeting(name@),
{
    let mut r = String::from_str("and then ");
    r.append(name);
    r.append(" made the stupidest fa-- oh, hey ");
    r.append(name);
    r.append(", didn't see you there buddy");
    r
}

/// The two remarks on a peer that quit.
pub fn bid_farewell(name: &str) -> (r: Vec<String>)
    ensures
        r.deep_view() == farewell(name@),
{
    let mut first = String::from_str("did you see the way ");
    first.append(name);
    first.append(" left like that?");
    let mut r: Vec<String> = Vec::new();
    r.push(first);
    r.push(String::from_str("that's just, like, classic him."));
    assert(r.deep_view() =~= farewell(name@));
    r
}

/// The remark on a peer that changed the topic.
pub fn remark_on_topic(name: &str) -> (r: String)
    ensures
        r@ == topic_remark(name@),
{
    let mut r = String::from_str("what was wrong with the old topic, ");
    r.append(name);
    r.append("?");
    r
}

/// The three lines that mock `speaker` by quoting `quote`.
pub fn mock(speaker: &str, quote: &str) -> (r: Vec<String>)
    ensures
        r.deep_view() == mocking(speaker@, quote@),
{
    let mut first = String::from_str("and then ");
    first.append(speaker);
    first.append(" was all like");
    let mut second = String::from_str("\"");
    second.append(quote);
    second.append("\"");
    let mut third = String::from_str("you're better than that, ");
    third.append(speaker);
    third.append(" -- that's what your mom would always say: \"You're better than that, ");
    third.append(speaker);
    third.append(".\"");
    let mut r: Vec<String> = Vec::new();
    r.push(first);
    r.push(second);
    r.push(third);
    assert(r.deep_view() =~= mocking(speaker@, quote@));
    r
}

} // verus!
