use vkbot::session::ServerConfig;
use vkbot::store::{decode_record, encode_record, ConfigFile};

fn session(key: &str, server: &str, ts: &str) -> ServerConfig {
    ServerConfig {
        key: key.to_owned(),
        server: server.to_owned(),
        ts: ts.to_owned(),
    }
}

#[test]
fn encode_plain_record() {
    let line = encode_record(&session("k", "https://example.test/poll", "1"));
    assert_eq!(line, r#"{"key":"k","server":"https://example.test/poll","ts":"1"}"#);
}

#[test]
fn decode_plain_record() {
    let c = decode_record(r#"{"key":"a","server":"b","ts":"c"}"#).unwrap();
    assert_eq!(c, session("a", "b", "c"));
}

#[test]
fn write_then_read_yields_same_triple() {
    let (mut file, initial) = ConfigFile::open(None);
    assert_eq!(initial, None);
    let written = session("secret-key", "https://example.test/poll?x=1", "4711");
    file.set(&written);
    let read_back = file.read().unwrap();
    assert_eq!(read_back, written);
}

#[test]
fn round_trip_with_escapes() {
    let tricky = session("a\"b\\c", "line\nbreak\ttab", "ctl\u{1}\u{1f}end");
    let line = encode_record(&tricky);
    let back = decode_record(&line).unwrap();
    assert_eq!(back, tricky);
}

#[test]
fn escapes_use_json_notation() {
    let line = encode_record(&session("a\"b", "c\\d", "e\nf\u{1b}g"));
    assert_eq!(line, "{\"key\":\"a\\\"b\",\"server\":\"c\\\\d\",\"ts\":\"e\\nf\\u001bg\"}");
}

#[test]
fn corrupt_record_reads_as_absent() {
    assert_eq!(decode_record(""), None);
    assert_eq!(decode_record("not a record"), None);
    assert_eq!(decode_record(r#"{"key":"a","server":"b"}"#), None);
    assert_eq!(decode_record(r#"{"key":"a","server":"b","ts":"c"} "#), None);
    assert_eq!(decode_record(r#"{"key":"a","server":"b","ts":"c"#), None);
    assert_eq!(decode_record(r#"{"key":"a","server":"b","ts":3}"#), None);
}

#[test]
fn open_with_valid_line_yields_session() {
    let line = r#"{"key":"k","server":"s","ts":"9"}"#.to_owned();
    let (file, config) = ConfigFile::open(Some(line.clone()));
    assert_eq!(config, Some(session("k", "s", "9")));
    assert_eq!(file.line(), Some(&line));
}

#[test]
fn open_with_corrupt_line_yields_none() {
    let (file, config) = ConfigFile::open(Some("garbage".to_owned()));
    assert_eq!(config, None);
    assert_eq!(file.line(), Some(&"garbage".to_owned()));
}

#[test]
fn set_overwrites_slot_whole() {
    let (mut file, _) = ConfigFile::open(Some("old content that is much longer".to_owned()));
    file.set(&session("k", "s", "1"));
    assert_eq!(
        file.line(),
        Some(&r#"{"key":"k","server":"s","ts":"1"}"#.to_owned())
    );
}
