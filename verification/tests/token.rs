use dghub::json::Json;
use dghub::token::{normalize_token, socket_url, token_from_reply, token_from_text, token_url};

#[test]
fn token_is_trimmed() {
    assert_eq!(normalize_token("  abc\n"), Some("abc".to_owned()));
    assert_eq!(normalize_token("a b"), Some("a b".to_owned()));
    assert_eq!(normalize_token("\u{3000}\u{a0}abc\u{2028}\u{85}"), Some("abc".to_owned()));
    assert_eq!(normalize_token("\u{200b}abc"), Some("\u{200b}abc".to_owned()));
}

#[test]
fn empty_token_is_none() {
    assert_eq!(normalize_token(""), None);
    assert_eq!(normalize_token(" \t\r\n\u{b}\u{c} "), None);
}

#[test]
fn normalizing_twice_changes_nothing() {
    let once = normalize_token(" \t x y \n").unwrap();
    assert_eq!(normalize_token(&once), Some(once));
}

#[test]
fn token_of_an_object() {
    assert_eq!(token_from_text("{\"token\":\"abc\"}"), "abc");
    assert_eq!(token_from_text(" {\"ok\":true,\"token\":\" x \"}\n"), " x ");
    assert_eq!(token_from_text("{\"token\":\"\"}"), "");
}

#[test]
fn token_of_a_json_string() {
    assert_eq!(token_from_text("\"abc\""), "abc");
    assert_eq!(token_from_text("\"a\\u0062\\n\""), "ab\n");
}

#[test]
fn token_of_plain_text() {
    assert_eq!(token_from_text("  abc\n"), "abc");
    assert_eq!(token_from_text("  \"\"abc\" "), "abc");
    assert_eq!(token_from_text("\" abc"), " abc");
    assert_eq!(token_from_text(""), "");
}

#[test]
fn other_json_is_plain_text() {
    assert_eq!(token_from_text("12345"), "12345");
    assert_eq!(token_from_text(" {\"token\":5} "), "{\"token\":5}");
    assert_eq!(token_from_text("[\"abc\"]"), "[\"abc\"]");
    assert_eq!(token_from_text("null"), "null");
}

#[test]
fn token_of_a_given_reply() {
    let reply = Json::text("inner");
    assert_eq!(token_from_reply("outer", Some(&reply)), "inner");
    assert_eq!(token_from_reply(" \"outer\" ", None), "outer");
    assert_eq!(token_from_reply(" \"outer\" ", Some(&Json::Null)), "outer");
}

#[test]
fn addresses() {
    assert_eq!(token_url("127.0.0.1", 8765), "http://127.0.0.1:8765/api/plugins/_session_token");
    assert_eq!(socket_url("hub.local", 80, "t&k"), "ws://hub.local:80/ws/plugin?token=t&k");
    assert_eq!(socket_url("h", 0, ""), "ws://h:0/ws/plugin?token=");
    assert_eq!(token_url("h", 65535), "http://h:65535/api/plugins/_session_token");
}
