use chazbot::message::parse_key;
use chazbot::{classify, ClassifiedMessage, Key, LineError};

#[test]
fn server_line_is_a_formality() {
    assert_eq!(
        classify(":concrete.mozilla.org NOTICE * :*** Looking up your hostname", "bot"),
        Ok(ClassifiedMessage::FromServer)
    );
}

#[test]
fn ping_carries_its_token() {
    assert_eq!(
        classify("PING abc123", "bot"),
        Ok(ClassifiedMessage::KeepAlivePing("abc123".to_string()))
    );
    assert_eq!(
        classify("PING :irc.example.org more", "bot"),
        Ok(ClassifiedMessage::KeepAlivePing(":irc.example.org more".to_string()))
    );
}

#[test]
fn ping_without_token() {
    assert_eq!(
        classify("PING", "bot"),
        Ok(ClassifiedMessage::KeepAlivePing(String::new()))
    );
}

#[test]
fn line_about_the_bot_itself() {
    assert_eq!(
        classify(":bot MODE +i", "bot"),
        Ok(ClassifiedMessage::FromSelf("MODE +i".to_string()))
    );
    assert_eq!(
        classify(":chaz MODE chaz :+x", "chaz"),
        Ok(ClassifiedMessage::FromSelf("MODE chaz :+x".to_string()))
    );
}

#[test]
fn line_from_a_peer() {
    assert_eq!(
        classify(":alice!user@host JOIN #room", "bot"),
        Ok(ClassifiedMessage::FromPeer {
            name: "alice".to_string(),
            content: "JOIN #room".to_string(),
        })
    );
    assert_eq!(
        classify(":alice!user@host PRIVMSG #room :hi there  bot", "bot"),
        Ok(ClassifiedMessage::FromPeer {
            name: "alice".to_string(),
            content: "PRIVMSG #room :hi there  bot".to_string(),
        })
    );
}

#[test]
fn the_bot_seen_as_a_peer() {
    assert_eq!(
        classify(":bot!me@host JOIN #room", "bot"),
        Ok(ClassifiedMessage::FromPeer {
            name: "bot".to_string(),
            content: "JOIN #room".to_string(),
        })
    );
}

#[test]
fn key_without_delimiter_is_an_error() {
    assert_eq!(classify(":alice JOIN #room", "bot"), Err(LineError::Classification));
    assert_eq!(classify("NOTICE AUTH :hello", "bot"), Err(LineError::Classification));
    assert_eq!(classify("", "bot"), Err(LineError::Classification));
    assert_eq!(classify(" PING x", "bot"), Err(LineError::Classification));
    assert_eq!(classify("ping x", "bot"), Err(LineError::Classification));
}

#[test]
fn key_is_split_off_at_any_white_space() {
    assert_eq!(
        classify("PING\tabc", "bot"),
        Ok(ClassifiedMessage::KeepAlivePing("abc".to_string()))
    );
    assert_eq!(
        classify("PING  abc", "bot"),
        Ok(ClassifiedMessage::KeepAlivePing(" abc".to_string()))
    );
}

#[test]
fn classification_is_idempotent() {
    let lines = [
        ":concrete.mozilla.org 001 bot :Welcome",
        "PING abc123",
        ":bot MODE +i",
        ":alice!user@host PRIVMSG #room :lol",
        ":broken",
        "",
    ];
    for line in lines {
        for nick in ["bot", "alice", ""] {
            assert_eq!(classify(line, nick), classify(line, nick));
        }
    }
}

#[test]
fn parse_key_fixed_keys() {
    assert_eq!(parse_key(":concrete.mozilla.org", "bot"), Ok(Key::Server));
    assert_eq!(parse_key("PING", "bot"), Ok(Key::Ping));
    assert_eq!(parse_key(":bot", "bot"), Ok(Key::Me));
    assert_eq!(parse_key(":", ""), Ok(Key::Me));
}

#[test]
fn parse_key_fixed_keys_come_before_the_own_name() {
    assert_eq!(parse_key(":concrete.mozilla.org", "concrete.mozilla.org"), Ok(Key::Server));
    assert_eq!(parse_key("PING", "ING"), Ok(Key::Ping));
}

#[test]
fn parse_key_peer_names() {
    assert_eq!(parse_key(":alice!user@host", "bot"), Ok(Key::Nick("alice".to_string())));
    assert_eq!(parse_key("alice!user@host", "bot"), Ok(Key::Nick("alice".to_string())));
    assert_eq!(parse_key(":a!b!c", "bot"), Ok(Key::Nick("a".to_string())));
    assert_eq!(parse_key("::alice!user", "bot"), Ok(Key::Nick(":alice".to_string())));
    assert_eq!(parse_key(":!user@host", "bot"), Ok(Key::Nick(String::new())));
    assert_eq!(parse_key("!", "bot"), Ok(Key::Nick(String::new())));
    assert_eq!(parse_key(":bot!user@host", "bot"), Ok(Key::Nick("bot".to_string())));
}

#[test]
fn parse_key_without_delimiter() {
    assert_eq!(parse_key(":alice", "bot"), Err(LineError::Classification));
    assert_eq!(parse_key("", "bot"), Err(LineError::Classification));
    assert_eq!(parse_key(":bot", "bots"), Err(LineError::Classification));
    assert_eq!(parse_key("PONG", "bot"), Err(LineError::Classification));
}

#[test]
fn errors_describe_themselves() {
    assert_eq!(LineError::Classification.describe(), "unrecognized key");
    assert_eq!(LineError::MalformedCommand.describe(), "malformed command");
}
