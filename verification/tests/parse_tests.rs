use vkbot::errors::ProtocolError;
use vkbot::parse::{interpret_poll, parse_event, parse_poll_response};
use vkbot::protocol::{Event, PollResponse, RawUpdate};

fn wall(id: i64) -> RawUpdate {
    RawUpdate::WallPost { id }
}

fn board(from_id: i64, text: String, topic_id: i64, id: i64) -> RawUpdate {
    RawUpdate::BoardPost {
        id,
        from_id,
        text,
        topic_id,
    }
}

#[test]
fn deserialize_ok() {
    let source = r#"
{
   "ts":"4",
   "updates":[
      {
         "type":"wall_post_new",
         "object":{
            "id":28
         },
         "group_id":123456
      },
      {
         "type":"board_post_new",
         "object":{
            "from_id":1000,
            "text":"some text",
            "id": 123,
            "topic_id": 456
         },
         "group_id":123456
      }
   ]
}
        "#;
    let result = parse_poll_response(source).unwrap();
    assert_eq!(
        PollResponse::Updates {
            ts: "4".to_owned(),
            updates: vec!(wall(28), board(1000, "some text".to_owned(), 456, 123),)
        },
        result
    );
}

#[test]
fn deserialize_fail() {
    let source = r#"{"failed":1,"ts":30}"#;
    let result = parse_poll_response(source).unwrap();
    assert_eq!(
        PollResponse::Failure {
            failed: 1,
            ts: Some(30),
        },
        result
    );
}

#[test]
fn deserialize_event() {
    let source = r#"
        {
         "type":"wall_post_new",
         "object":{
            "id":28
         },
         "group_id":123456
        }"#;
    let result = parse_event(source).unwrap();
    assert_eq!(RawUpdate::WallPost { id: 28 }, result);
}

#[test]
fn deserialize_other_event() {
    let source = r#"
        {
         "type":"other",
         "object":"",
         "group_id":123456
        }"#;
    let result = parse_event(source).unwrap();
    assert_eq!(RawUpdate::Unknown, result);
}

#[test]
fn deserialize_other() {
    let source = r#"
{
   "ts":"4",
   "updates":[
      {
         "type":"message_new",
         "object":{
            "date":1578870439,
            "from_id":5848319,
            "id":0,
            "out":0,
            "peer_id":2000000001,
            "text":"sdfsdf",
            "conversation_message_id":29,
            "fwd_messages":[

            ],
            "important":false,
            "random_id":0,
            "attachments":[

            ],
            "is_hidden":false
         },
         "group_id":121322600,
         "event_id":"d5ad121479d4814cb01dc700cdd25f1d0b806355"
      }
   ]
}"#;
    let result = parse_poll_response(source).unwrap();
    assert_eq!(
        PollResponse::Updates {
            ts: "4".to_owned(),
            updates: vec!(RawUpdate::Unknown)
        },
        result
    );
}

#[test]
fn interpret_failure_one_with_cursor() {
    let outcome = interpret_poll(200, r#"{"failed":1,"ts":30}"#).unwrap();
    assert_eq!(outcome.ts, Some("30".to_owned()));
    assert!(!outcome.refresh_key);
    assert!(!outcome.refresh_all);
    assert!(outcome.events.is_empty());
}

#[test]
fn interpret_two_updates_in_order() {
    let source = r#"{"ts":"4","updates":[{"type":"wall_post_new","object":{"id":28}},{"type":"board_post_new","object":{"from_id":1000,"text":"hi","topic_id":456,"id":123}}]}"#;
    let outcome = interpret_poll(200, source).unwrap();
    assert_eq!(outcome.ts, Some("4".to_owned()));
    assert!(!outcome.refresh_key);
    assert!(!outcome.refresh_all);
    assert_eq!(
        outcome.events,
        vec![
            Event::WallPost { id: 28 },
            Event::BoardPost {
                from_id: 1000,
                text: "hi".to_owned(),
                topic_id: 456,
                id: 123
            },
        ]
    );
}

#[test]
fn interpret_failure_one_without_cursor() {
    let outcome = interpret_poll(200, r#"{"failed":1}"#).unwrap();
    assert_eq!(outcome.ts, None);
    assert!(outcome.refresh_key);
    assert!(outcome.refresh_all);
    assert!(outcome.events.is_empty());
}

#[test]
fn interpret_failure_two_with_and_without_cursor() {
    for body in [r#"{"failed":2}"#, r#"{"failed":2,"ts":77}"#] {
        let outcome = interpret_poll(200, body).unwrap();
        assert_eq!(outcome.ts, None);
        assert!(outcome.refresh_key);
        assert!(!outcome.refresh_all);
        assert!(outcome.events.is_empty());
    }
}

#[test]
fn interpret_failure_other_code() {
    let outcome = interpret_poll(200, r#"{"failed":3,"ts":9}"#).unwrap();
    assert_eq!(outcome.ts, None);
    assert!(outcome.refresh_key);
    assert!(outcome.refresh_all);
    assert!(outcome.events.is_empty());
}

#[test]
fn interpret_unknown_tags_do_not_block_cursor() {
    let source = r#"{"ts":"9","updates":[{"type":"other","object":{}},{"type":"wall_post_new","object":{"id":5}},{"type":"other2","object":3}]}"#;
    let outcome = interpret_poll(200, source).unwrap();
    assert_eq!(outcome.ts, Some("9".to_owned()));
    assert_eq!(outcome.events, vec![Event::WallPost { id: 5 }]);
    assert!(!outcome.refresh_key);
    assert!(!outcome.refresh_all);
}

#[test]
fn interpret_empty_updates_keeps_cursor() {
    let outcome = interpret_poll(200, r#"{"ts":"8","updates":[]}"#).unwrap();
    assert_eq!(outcome.ts, Some("8".to_owned()));
    assert!(!outcome.refresh_key);
    assert!(!outcome.refresh_all);
    assert!(outcome.events.is_empty());
}

#[test]
fn interpret_bad_status_fails() {
    let r = interpret_poll(500, r#"{"failed":1,"ts":30}"#);
    assert_eq!(r, Err(ProtocolError::BadStatus { status: 500 }));
}

#[test]
fn interpret_malformed_body_fails() {
    assert_eq!(
        interpret_poll(200, "not json at all"),
        Err(ProtocolError::Malformed)
    );
    assert_eq!(
        interpret_poll(200, r#"{"neither":"shape"}"#),
        Err(ProtocolError::Malformed)
    );
    assert_eq!(
        interpret_poll(200, r#"{"failed":1,"ts":"x"}"#),
        Err(ProtocolError::Malformed)
    );
    assert_eq!(
        interpret_poll(200, r#"{"failed":300}"#),
        Err(ProtocolError::Malformed)
    );
}

#[test]
fn malformed_event_payload_is_unknown() {
    let source = r#"{"ts":"4","updates":[{"type":"wall_post_new","object":{"id":"nan"}}]}"#;
    let result = parse_poll_response(source).unwrap();
    assert_eq!(
        PollResponse::Updates {
            ts: "4".to_owned(),
            updates: vec![RawUpdate::Unknown]
        },
        result
    );
}

#[test]
fn string_escapes_are_decoded() {
    let source = "{\"ts\":\"4\",\"updates\":[{\"type\":\"board_post_new\",\"object\":{\"from_id\":1,\"text\":\"AB \\n \\\"q\\\" \\u0041\\u00e9\\uD83D\\uDE00\",\"topic_id\":2,\"id\":3}}]}";
    let result = parse_poll_response(source).unwrap();
    assert_eq!(
        PollResponse::Updates {
            ts: "4".to_owned(),
            updates: vec![board(1, "AB \n \"q\" A\u{e9}\u{1F600}".to_owned(), 2, 3)],
        },
        result
    );
}

#[test]
fn lone_surrogate_is_malformed() {
    let source = r#"{"ts":"4\uD83D","updates":[]}"#;
    assert!(parse_poll_response(source).is_err());
}

#[test]
fn numeric_cursor_at_the_integer_boundary() {
    let outcome = interpret_poll(200, r#"{"failed":1,"ts":18446744073709551615}"#).unwrap();
    assert_eq!(outcome.ts, Some("18446744073709551615".to_owned()));
    let r = interpret_poll(200, r#"{"failed":1,"ts":18446744073709551616}"#);
    assert_eq!(r, Err(ProtocolError::Malformed));
}

#[test]
fn ids_at_the_integer_boundary() {
    let source = r#"{"ts":"4","updates":[{"type":"wall_post_new","object":{"id":-9223372036854775808}}]}"#;
    let result = parse_poll_response(source).unwrap();
    assert_eq!(
        PollResponse::Updates {
            ts: "4".to_owned(),
            updates: vec![wall(i64::MIN)],
        },
        result
    );
    let over = r#"{"ts":"4","updates":[{"type":"wall_post_new","object":{"id":9223372036854775808}}]}"#;
    let result = parse_poll_response(over).unwrap();
    assert_eq!(
        PollResponse::Updates {
            ts: "4".to_owned(),
            updates: vec![RawUpdate::Unknown],
        },
        result
    );
}
