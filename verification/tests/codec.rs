use kip::entry::{decode, encode, Entry};

fn entry(pw: &str, un: &str, no: &str) -> Entry {
    Entry { password: pw.to_string(), username: un.to_string(), notes: no.to_string() }
}

#[test]
fn encode_exact_format() {
    let e = entry("pw1", "user1", "some notes");
    assert_eq!(encode(&e), "pw1\nuser1\nsome notes\n");
}

#[test]
fn encode_empty_notes_keeps_trailing_newline() {
    let e = entry("pw1", "user1", "");
    assert_eq!(encode(&e), "pw1\nuser1\n\n");
}

#[test]
fn decode_recovers_fields() {
    let r = decode("pw1\nuser1\nsome notes\n").unwrap();
    assert_eq!(r.password, "pw1");
    assert_eq!(r.username, "user1");
    assert_eq!(r.notes, "some notes");
}

#[test]
fn round_trip_preserves_password_and_username() {
    let e = entry("s3cr#t", "alice", "plain notes");
    let r = decode(&encode(&e)).unwrap();
    assert_eq!(r.password, "s3cr#t");
    assert_eq!(r.username, "alice");
    assert_eq!(r.notes, "plain notes");
}

#[test]
fn round_trip_collapses_newlines_in_notes() {
    let e = entry("pw", "bob", "line one\nline two\nline three");
    let r = decode(&encode(&e)).unwrap();
    assert_eq!(r.password, "pw");
    assert_eq!(r.username, "bob");
    assert_eq!(r.notes, "line oneline twoline three");
}

#[test]
fn decode_without_any_newline_is_malformed() {
    assert!(decode("just one token").is_err());
    assert!(decode("").is_err());
}

#[test]
fn decode_with_single_newline_gives_empty_username() {
    let r = decode("pw\n").unwrap();
    assert_eq!(r.password, "pw");
    assert_eq!(r.username, "");
    assert_eq!(r.notes, "");
}

#[test]
fn decode_joins_later_lines_with_no_separator() {
    let r = decode("a\nb\nc\nd\n").unwrap();
    assert_eq!(r.password, "a");
    assert_eq!(r.username, "b");
    assert_eq!(r.notes, "cd");
}
