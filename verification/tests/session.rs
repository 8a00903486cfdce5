use chazbot::{Bot, Key, LineError, NextLine};

fn bot(seed: u64) -> Bot {
    Bot::new("bot".to_string(), "#room".to_string(), seed)
}

fn joined_bot(seed: u64) -> Bot {
    let mut b = bot(seed);
    b.join();
    b.take_outbox();
    b
}

const GREETING: &str =
    "PRIVMSG #room :and then alice made the stupidest fa-- oh, hey alice, didn't see you there buddy\r\n";

#[test]
fn new_session_is_not_joined_and_has_nothing_to_send() {
    let mut b = Bot::new("chaz".to_string(), "#very-student".to_string(), 1);
    assert_eq!(b.nick(), "chaz");
    assert_eq!(b.channel(), "#very-student");
    assert!(!b.is_joined());
    assert!(!b.is_closed());
    assert_eq!(b.take_outbox(), Vec::<String>::new());
    assert_eq!(b.read_line(), NextLine::Empty);
}

#[test]
fn init_registers_user_and_nick() {
    let mut b = Bot::new("chaz".to_string(), "#very-student".to_string(), 1);
    b.init();
    assert_eq!(
        b.take_outbox(),
        vec!["USER chaz 8 * :chaz\r\n".to_string(), "NICK chaz\r\n".to_string()]
    );
    assert!(!b.is_joined());
}

#[test]
fn writeln_appends_the_terminator() {
    let mut b = bot(0);
    b.writeln("PONG x".to_string());
    b.writeln(String::new());
    assert_eq!(b.take_outbox(), vec!["PONG x\r\n".to_string(), "\r\n".to_string()]);
}

#[test]
fn take_outbox_empties_the_outbox() {
    let mut b = bot(0);
    b.writeln("one".to_string());
    assert_eq!(b.take_outbox(), vec!["one\r\n".to_string()]);
    assert_eq!(b.take_outbox(), Vec::<String>::new());
    b.writeln("two".to_string());
    assert_eq!(b.take_outbox(), vec!["two\r\n".to_string()]);
}

#[test]
fn say_does_nothing_before_the_channel_is_joined() {
    let mut b = bot(0);
    b.say("hello".to_string());
    assert_eq!(b.take_outbox(), Vec::<String>::new());
    b.join();
    b.say("hello".to_string());
    assert_eq!(
        b.take_outbox(),
        vec!["JOIN #room\r\n".to_string(), "PRIVMSG #room :hello\r\n".to_string()]
    );
}

#[test]
fn say_all_says_each_in_order() {
    let mut b = joined_bot(0);
    b.say_all(vec!["a".to_string(), "b".to_string(), "c".to_string()]);
    assert_eq!(
        b.take_outbox(),
        vec![
            "PRIVMSG #room :a\r\n".to_string(),
            "PRIVMSG #room :b\r\n".to_string(),
            "PRIVMSG #room :c\r\n".to_string()
        ]
    );
}

#[test]
fn join_happens_once() {
    let mut b = bot(0);
    b.join();
    assert!(b.is_joined());
    b.join();
    b.join();
    assert!(b.is_joined());
    assert_eq!(b.take_outbox(), vec!["JOIN #room\r\n".to_string()]);
}

#[test]
fn converse_directs_a_phrase_at_the_name() {
    let mut b = joined_bot(0);
    b.converse("alice");
    assert_eq!(
        b.take_outbox(),
        vec!["PRIVMSG #room :alice                       :}\r\n".to_string()]
    );
    let mut b = joined_bot(1);
    b.converse("alice");
    assert_eq!(b.take_outbox(), vec!["PRIVMSG #room :very chaz, alice\r\n".to_string()]);
    let mut b = joined_bot(2);
    b.converse("alice");
    assert_eq!(b.take_outbox(), vec!["PRIVMSG #room :good dogge :]\r\n".to_string()]);
}

#[test]
fn idle_tick_says_something_out_of_boredom() {
    let mut b = joined_bot(0);
    b.idle_tick();
    assert_eq!(
        b.take_outbox(),
        vec!["PRIVMSG #room :and then he was like 'oh chaz you so funny'\r\n".to_string()]
    );
    let mut b = joined_bot(2);
    b.idle_tick();
    assert_eq!(b.take_outbox(), vec!["PRIVMSG #room :hey guys? question\r\n".to_string()]);
}

#[test]
fn idle_tick_before_the_join_says_nothing_but_draws() {
    let mut b = bot(0);
    b.idle_tick();
    assert_eq!(b.take_outbox(), Vec::<String>::new());
    b.join();
    b.take_outbox();
    b.idle_tick();
    let mut fresh = joined_bot(1442695040888963407);
    fresh.idle_tick();
    assert_eq!(b.take_outbox(), fresh.take_outbox());
}

#[test]
fn peer_joining_is_greeted() {
    let mut b = joined_bot(0);
    assert_eq!(b.handle_line(":alice!user@host JOIN #room"), Ok(()));
    assert_eq!(b.take_outbox(), vec![GREETING.to_string()]);
}

#[test]
fn peer_joining_before_the_own_join_is_not_greeted() {
    let mut b = bot(0);
    assert_eq!(b.handle_line(":alice!user@host JOIN #room"), Ok(()));
    assert_eq!(b.take_outbox(), Vec::<String>::new());
}

#[test]
fn own_join_is_not_greeted() {
    let mut b = joined_bot(0);
    assert_eq!(b.handle_line(":bot!me@host JOIN #room"), Ok(()));
    assert_eq!(b.take_outbox(), Vec::<String>::new());
}

#[test]
fn ping_is_answered_with_pong() {
    let mut b = bot(0);
    assert_eq!(b.handle_line("PING abc123"), Ok(()));
    assert_eq!(b.take_outbox(), vec!["PONG abc123\r\n".to_string()]);
    assert_eq!(b.handle_line("PING"), Ok(()));
    assert_eq!(b.take_outbox(), vec!["PONG \r\n".to_string()]);
}

#[test]
fn server_lines_are_passed_over() {
    let mut b = joined_bot(0);
    assert_eq!(b.handle_line(":concrete.mozilla.org 001 bot :Welcome"), Ok(()));
    assert_eq!(b.handle_line(":concrete.mozilla.org"), Ok(()));
    assert_eq!(b.take_outbox(), Vec::<String>::new());
}

#[test]
fn mode_confirmation_makes_the_bot_join_and_talk_to_itself() {
    let mut b = bot(0);
    assert_eq!(b.handle_line(":bot MODE +i"), Ok(()));
    assert!(b.is_joined());
    assert_eq!(
        b.take_outbox(),
        vec![
            "JOIN #room\r\n".to_string(),
            "PRIVMSG #room :bot                       :}\r\n".to_string()
        ]
    );
    let mut b = bot(7);
    assert_eq!(b.handle_line(":bot MODE bot :+x"), Ok(()));
    assert_eq!(
        b.take_outbox(),
        vec!["JOIN #room\r\n".to_string(), "PRIVMSG #room :very chaz, bot\r\n".to_string()]
    );
}

#[test]
fn join_fires_once_over_repeated_mode_confirmations() {
    let mut b = bot(0);
    assert_eq!(b.handle_line(":bot MODE +i"), Ok(()));
    assert_eq!(b.handle_line(":bot MODE +i"), Ok(()));
    assert_eq!(b.handle_line(":bot MODE +x"), Ok(()));
    assert!(b.is_joined());
    let sent = b.take_outbox();
    assert_eq!(
        sent,
        vec![
            "JOIN #room\r\n".to_string(),
            "PRIVMSG #room :bot                       :}\r\n".to_string()
        ]
    );
    assert_eq!(sent.iter().filter(|line| line.starts_with("JOIN ")).count(), 1);
}

#[test]
fn other_lines_about_the_bot_do_not_make_it_join() {
    let mut b = bot(0);
    assert_eq!(b.handle_line(":bot NOTICE x"), Ok(()));
    assert_eq!(b.handle_line(":bot MODES +i"), Ok(()));
    assert_eq!(b.handle_line(":bot mode +i"), Ok(()));
    assert_eq!(b.handle_line(":bot"), Ok(()));
    assert_eq!(b.handle_line(":bot  MODE +i"), Ok(()));
    assert!(!b.is_joined());
    assert_eq!(b.take_outbox(), Vec::<String>::new());
    assert_eq!(b.handle_line(":bot MODE"), Ok(()));
    assert!(b.is_joined());
}

#[test]
fn mode_confirmation_for_another_name_is_not_the_own() {
    let mut b = bot(0);
    assert_eq!(b.handle_line(":bots MODE +i"), Err(LineError::Classification));
    assert_eq!(b.handle_line(":alice!u@h MODE +i"), Ok(()));
    assert!(!b.is_joined());
    assert_eq!(b.take_outbox(), Vec::<String>::new());
}

#[test]
fn quit_and_topic_are_remarked_on() {
    let mut b = joined_bot(0);
    assert_eq!(b.handle_line(":alice!user@host QUIT :gone"), Ok(()));
    assert_eq!(
        b.take_outbox(),
        vec![
            "PRIVMSG #room :did you see the way alice left like that?\r\n".to_string(),
            "PRIVMSG #room :that's just, like, classic him.\r\n".to_string()
        ]
    );
    assert_eq!(b.handle_line(":alice!user@host TOPIC #room :new topic"), Ok(()));
    assert_eq!(
        b.take_outbox(),
        vec!["PRIVMSG #room :what was wrong with the old topic, alice?\r\n".to_string()]
    );
    assert_eq!(b.handle_line(":alice!user@host QUIT"), Ok(()));
    assert_eq!(b.take_outbox().len(), 2);
}

#[test]
fn unknown_commands_are_passed_over() {
    let mut b = joined_bot(0);
    assert_eq!(b.handle_line(":alice!user@host NICK al"), Ok(()));
    assert_eq!(b.handle_line(":alice!user@host PART #room"), Ok(()));
    assert_eq!(b.handle_line(":alice!user@host join #room"), Ok(()));
    assert_eq!(b.handle_line(":alice!user@host"), Ok(()));
    assert_eq!(b.handle_line(":alice!user@host "), Ok(()));
    assert_eq!(b.take_outbox(), Vec::<String>::new());
}

#[test]
fn privmsg_without_channel_or_text_is_malformed() {
    let mut b = joined_bot(0);
    assert_eq!(b.handle_line(":alice!u@h PRIVMSG"), Err(LineError::MalformedCommand));
    assert_eq!(b.handle_line(":alice!u@h PRIVMSG #room"), Err(LineError::MalformedCommand));
    assert_eq!(b.handle_line(":alice!u@h PRIVMSG "), Err(LineError::MalformedCommand));
    assert_eq!(b.respond_to("alice", "PRIVMSG #room"), Err(LineError::MalformedCommand));
    assert_eq!(b.take_outbox(), Vec::<String>::new());
    assert_eq!(b.respond_to("alice", "PRIVMSG #room "), Ok(()));
    assert_eq!(b.respond_to("alice", "PRIVMSG #room :rofl"), Ok(()));
    assert_eq!(b.take_outbox(), vec!["PRIVMSG #room :LOLOLOLLLLLL\r\n".to_string()]);
}

#[test]
fn unclassified_line_is_dropped() {
    let mut b = joined_bot(0);
    assert_eq!(b.handle_line("garbage"), Err(LineError::Classification));
    assert_eq!(b.handle_line(""), Err(LineError::Classification));
    assert_eq!(b.handle_line(":alice PRIVMSG #room :rofl"), Err(LineError::Classification));
    assert_eq!(b.take_outbox(), Vec::<String>::new());
}

#[test]
fn privmsg_is_answered() {
    let mut b = joined_bot(0);
    assert_eq!(b.handle_line(":alice!u@h PRIVMSG #room :rofl lol"), Ok(()));
    assert_eq!(b.take_outbox(), vec!["PRIVMSG #room :LOLOLOLLLLLL\r\n".to_string()]);
    assert_eq!(b.handle_line(":alice!u@h PRIVMSG #room :so WOW"), Ok(()));
    assert_eq!(b.take_outbox(), vec!["PRIVMSG #room :wowowow doogie hauser\r\n".to_string()]);
}

#[test]
fn only_one_leading_colon_is_taken_off_the_text() {
    let mut b = joined_bot(79);
    b.respond_to_privmsg("alice", "hey bot  ");
    assert_eq!(
        b.take_outbox(),
        vec![
            "PRIVMSG #room :and then alice was all like\r\n".to_string(),
            "PRIVMSG #room :\"hey bot\"\r\n".to_string(),
            "PRIVMSG #room :you're better than that, alice -- that's what your mom would always say: \"You're better than that, alice.\"\r\n".to_string()
        ]
    );
    let mut b = joined_bot(79);
    assert_eq!(b.respond_to("alice", "PRIVMSG #room ::) hey bot"), Ok(()));
    assert_eq!(b.take_outbox()[1], "PRIVMSG #room :\":) hey bot\"\r\n");
}

#[test]
fn mocking_after_a_mode_confirmation() {
    let mut b = bot(17);
    assert_eq!(b.handle_line(":bot MODE +i"), Ok(()));
    assert_eq!(b.handle_line(":alice!u@h PRIVMSG #room :hey bot   "), Ok(()));
    assert_eq!(
        b.take_outbox(),
        vec![
            "JOIN #room\r\n".to_string(),
            "PRIVMSG #room :good dogge :]\r\n".to_string(),
            "PRIVMSG #room :and then alice was all like\r\n".to_string(),
            "PRIVMSG #room :\"hey bot\"\r\n".to_string(),
            "PRIVMSG #room :you're better than that, alice -- that's what your mom would always say: \"You're better than that, alice.\"\r\n".to_string()
        ]
    );
}

#[test]
fn filler_after_a_mode_confirmation() {
    let mut b = bot(8);
    assert_eq!(b.handle_line(":bot MODE +i"), Ok(()));
    assert_eq!(b.handle_line(":alice!u@h PRIVMSG #room :nothing here"), Ok(()));
    assert_eq!(
        b.take_outbox(),
        vec![
            "JOIN #room\r\n".to_string(),
            "PRIVMSG #room :good dogge :]\r\n".to_string(),
            "PRIVMSG #room :lol i don't even know what to say lol bc i'm a bot :-(\r\n".to_string()
        ]
    );
    let mut b = bot(0);
    assert_eq!(b.handle_line(":bot MODE +i"), Ok(()));
    assert_eq!(b.handle_line(":alice!u@h PRIVMSG #room :nothing here"), Ok(()));
    assert_eq!(b.take_outbox().len(), 2);
}

#[test]
fn parse_key_knows_the_own_name() {
    let b = bot(0);
    assert_eq!(b.parse_key(":bot"), Ok(Key::Me));
    assert_eq!(b.parse_key("PING"), Ok(Key::Ping));
    assert_eq!(b.parse_key(":concrete.mozilla.org"), Ok(Key::Server));
    assert_eq!(b.parse_key(":alice!user@host"), Ok(Key::Nick("alice".to_string())));
    assert_eq!(b.parse_key(":alice"), Err(LineError::Classification));
}

const SCRIPT: &[&str] = &[
    ":concrete.mozilla.org NOTICE * :hi",
    "PING abc123",
    ":alice!u@h PRIVMSG #room :hello bot",
    "<tick>",
    ":bot MODE +i",
    ":bot MODE +i",
    ":alice!u@h JOIN #room",
    ":bot!me@h JOIN #room",
    ":alice!u@h PRIVMSG #room :hello b o t  ",
    ":alice!u@h PRIVMSG #room :rofl lol",
    ":alice!u@h PRIVMSG #room :haha",
    ":alice!u@h PRIVMSG #room ::wOw",
    ":alice!u@h PRIVMSG #room :nothing here",
    ":alice!u@h PRIVMSG #room",
    ":alice!u@h NICK al",
    ":al!u@h TOPIC #room :new",
    ":al!u@h QUIT :bye",
    "garbage",
    "<tick>",
    "PING :x y",
];

const SCRIPT_OUTPUT: &[&str] = &[
    "USER bot 8 * :bot\r\n",
    "NICK bot\r\n",
    "PONG abc123\r\n",
    "JOIN #room\r\n",
    "PRIVMSG #room :bot pls\r\n",
    "PRIVMSG #room :and then alice made the stupidest fa-- oh, hey alice, didn't see you there buddy\r\n",
    "PRIVMSG #room :such chaz\r\n",
    "PRIVMSG #room :LOLOLOLLLLLL\r\n",
    "PRIVMSG #room :jaja\r\n",
    "PRIVMSG #room :wowowow doogie hauser\r\n",
    "PRIVMSG #room :what was wrong with the old topic, al?\r\n",
    "PRIVMSG #room :did you see the way al left like that?\r\n",
    "PRIVMSG #room :that's just, like, classic him.\r\n",
    "PRIVMSG #room :i just had the craziest idea\r\n",
    "PONG :x y\r\n",
];

fn run_script(seed: u64) -> (Vec<String>, Vec<LineError>) {
    let mut b = bot(seed);
    b.init();
    let mut errors = Vec::new();
    for line in SCRIPT {
        if *line == "<tick>" {
            b.idle_tick();
        } else if let Err(e) = b.handle_line(line) {
            errors.push(e);
        }
    }
    (b.take_outbox(), errors)
}

#[test]
fn scripted_session_under_a_fixed_seed() {
    let (sent, errors) = run_script(2024);
    assert_eq!(sent, SCRIPT_OUTPUT);
    assert_eq!(errors, vec![LineError::MalformedCommand, LineError::Classification]);
    assert_eq!(sent.iter().filter(|line| line.starts_with("JOIN ")).count(), 1);
}

#[test]
fn scripted_session_is_the_same_on_every_run() {
    for seed in [0u64, 1, 2024, u64::MAX] {
        assert_eq!(run_script(seed), run_script(seed));
    }
}

#[test]
fn interact_handles_every_line_that_has_arrived() {
    let mut b = bot(2024);
    b.init();
    let mut errors = Vec::new();
    for line in SCRIPT {
        if *line == "<tick>" {
            errors.extend(b.interact());
            b.idle_tick();
        } else {
            b.feed(line.as_bytes());
            b.feed(b"\r\n");
        }
    }
    errors.extend(b.interact());
    assert_eq!(b.take_outbox(), SCRIPT_OUTPUT);
    assert_eq!(errors, vec![LineError::MalformedCommand, LineError::Classification]);
    assert!(!b.is_closed());
    assert_eq!(b.interact(), Vec::<LineError>::new());
    assert_eq!(b.take_outbox(), Vec::<String>::new());
}

#[test]
fn interact_leaves_the_unfinished_line() {
    let mut b = bot(0);
    b.feed(b"PING one\r\nPING two\r\nPING thr");
    assert_eq!(b.interact(), Vec::<LineError>::new());
    assert_eq!(b.take_outbox(), vec!["PONG one\r\n".to_string(), "PONG two\r\n".to_string()]);
    b.feed(b"ee\r\n");
    assert_eq!(b.interact(), Vec::<LineError>::new());
    assert_eq!(b.take_outbox(), vec!["PONG three\r\n".to_string()]);
}

#[test]
fn session_ends_cleanly_when_the_stream_closes() {
    let mut b = bot(0);
    b.feed(b"PING one\r\nbad\r\nPING t");
    b.feed(b"");
    assert!(b.is_closed());
    assert_eq!(b.interact(), vec![LineError::Classification]);
    assert_eq!(b.take_outbox(), vec!["PONG one\r\n".to_string()]);
    assert_eq!(b.read_line(), NextLine::EndOfStream);
    b.feed(b"wo\r\n");
    assert_eq!(b.read_line(), NextLine::EndOfStream);
    assert_eq!(b.interact(), Vec::<LineError>::new());
}

#[test]
fn read_line_gives_the_lines_in_order() {
    let mut b = bot(0);
    b.feed(b":alice!u@h PRIVMSG #room :caf\xc3\xa9\r\nPING x\n");
    assert_eq!(
        b.read_line(),
        NextLine::Line(":alice!u@h PRIVMSG #room :caf\u{e9}".to_string())
    );
    assert_eq!(b.read_line(), NextLine::Line("PING x".to_string()));
    assert_eq!(b.read_line(), NextLine::Empty);
}

#[test]
fn garbled_line_does_not_stop_the_session() {
    let mut b = joined_bot(0);
    b.feed(b":al\xffice!u@h PRIVMSG #room :rofl \xc3\r\nPING ok\r\n");
    assert_eq!(b.interact(), Vec::<LineError>::new());
    assert_eq!(
        b.take_outbox(),
        vec!["PRIVMSG #room :LOLOLOLLLLLL\r\n".to_string(), "PONG ok\r\n".to_string()]
    );
}
