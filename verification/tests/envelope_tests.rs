use vkbot::config::Config;
use vkbot::envelope::{
    message_query, parse_send_response, parse_session_response, parse_users_response,
    pick_single_user, poll_query, session_query, user_query,
};
use vkbot::errors::{LookupError, UpstreamError};
use vkbot::session::{ServerConfig, User};

fn pairs(v: &[(String, String)]) -> Vec<(&str, &str)> {
    v.iter().map(|p| (p.0.as_str(), p.1.as_str())).collect()
}

#[test]
fn poll_query_parameters() {
    let q = poll_query(&ServerConfig {
        key: "k".to_owned(),
        server: "s".to_owned(),
        ts: "9".to_owned(),
    });
    assert_eq!(pairs(&q), vec![("act", "a_check"), ("wait", "25"), ("key", "k"), ("ts", "9")]);
}

#[test]
fn session_query_parameters() {
    let q = session_query(77, "tok");
    assert_eq!(pairs(&q), vec![("v", "5.100"), ("group_id", "77"), ("access_token", "tok")]);
}

#[test]
fn user_query_parameters() {
    let q = user_query(-42, "tok");
    assert_eq!(pairs(&q), vec![("v", "5.100"), ("user_ids", "-42"), ("access_token", "tok")]);
}

#[test]
fn message_query_parameters() {
    let q = message_query(-100, 7, "tok", Some("hello".to_owned()), None);
    assert_eq!(
        pairs(&q),
        vec![
            ("v", "5.100"),
            ("peer_id", "-100"),
            ("random_id", "7"),
            ("access_token", "tok"),
            ("message", "hello"),
        ]
    );
    let q = message_query(3, 8, "tok", None, Some("wall-1_2".to_owned()));
    assert_eq!(
        pairs(&q),
        vec![
            ("v", "5.100"),
            ("peer_id", "3"),
            ("random_id", "8"),
            ("access_token", "tok"),
            ("attachment", "wall-1_2"),
        ]
    );
}

#[test]
fn session_response_success() {
    let body = r#"{"response":{"key":"k","server":"s","ts":"1"}}"#;
    let c = parse_session_response(200, body).unwrap();
    assert_eq!(c.key, "k");
    assert_eq!(c.server, "s");
    assert_eq!(c.ts, "1");
}

#[test]
fn session_response_error_payload() {
    let body = r#"{"error":{"error_code":5,"error_msg":"auth failed"}}"#;
    let r = parse_session_response(200, body);
    assert_eq!(
        r,
        Err(UpstreamError::Api {
            code: 5,
            message: "auth failed".to_owned()
        })
    );
}

#[test]
fn session_response_missing_payload() {
    assert_eq!(parse_session_response(200, "{}"), Err(UpstreamError::MissingPayload));
}

#[test]
fn session_response_bad_status() {
    let body = r#"{"response":{"key":"k","server":"s","ts":"1"}}"#;
    assert_eq!(parse_session_response(503, body), Err(UpstreamError::BadStatus { status: 503 }));
}

#[test]
fn session_response_malformed() {
    assert_eq!(parse_session_response(200, "nope"), Err(UpstreamError::Malformed));
    assert_eq!(
        parse_session_response(200, r#"{"response":{"key":"k"}}"#),
        Err(UpstreamError::Malformed)
    );
    assert_eq!(
        parse_session_response(200, r#"{"error":{"error_code":"x"}}"#),
        Err(UpstreamError::Malformed)
    );
}

#[test]
fn users_response_success() {
    let body = r#"{"response":[{"id":1,"first_name":"A","last_name":"B"}]}"#;
    let users = parse_users_response(200, body).unwrap();
    assert_eq!(
        users,
        vec![User {
            first_name: Some("A".to_owned()),
            last_name: Some("B".to_owned())
        }]
    );
}

#[test]
fn users_response_absent_and_null_names() {
    let body = r#"{"response":[{"id":1,"first_name":null}]}"#;
    let users = parse_users_response(200, body).unwrap();
    assert_eq!(users, vec![User { first_name: None, last_name: None }]);
}

#[test]
fn users_response_wrong_name_type_is_malformed() {
    let body = r#"{"response":[{"first_name":3}]}"#;
    assert_eq!(parse_users_response(200, body), Err(UpstreamError::Malformed));
}

#[test]
fn exactly_one_user_succeeds() {
    let u = User {
        first_name: Some("A".to_owned()),
        last_name: None,
    };
    assert_eq!(pick_single_user(vec![u.clone()]), Ok(u));
}

#[test]
fn no_user_is_not_found() {
    assert_eq!(pick_single_user(vec![]), Err(LookupError::NotFound));
}

#[test]
fn many_users_are_ambiguous() {
    let u = User {
        first_name: None,
        last_name: None,
    };
    assert_eq!(pick_single_user(vec![u.clone(), u]), Err(LookupError::Ambiguous));
}

#[test]
fn send_response_numeric_identifier() {
    assert_eq!(parse_send_response(200, r#"{"response":7}"#), Ok(7));
    assert_eq!(parse_send_response(200, r#"{"response":"x"}"#), Err(UpstreamError::Malformed));
}

#[test]
fn config_getters_return_startup_values() {
    let c = Config::new("tok".to_owned(), 77, -100, Some("state.json".to_owned()));
    assert_eq!(c.token(), "tok");
    assert_eq!(c.group_id(), 77);
    assert_eq!(c.chat_peer_id(), -100);
    assert_eq!(c.server_options_file(), Some("state.json"));
}

#[test]
fn null_error_member_counts_as_absent() {
    assert_eq!(parse_send_response(200, r#"{"error":null,"response":7}"#), Ok(7));
    assert_eq!(
        parse_send_response(200, r#"{"response":null}"#),
        Err(UpstreamError::MissingPayload)
    );
}

#[test]
fn envelope_tolerates_whitespace() {
    let body = " {\n  \"response\" : { \"key\" : \"k\" , \"server\" : \"s\" , \"ts\" : \"1\" }\n } ";
    let c = parse_session_response(200, body).unwrap();
    assert_eq!(c.key, "k");
    assert_eq!(c.server, "s");
    assert_eq!(c.ts, "1");
}
