use vkbot::dispatch::{
    board_post_message, compose_relay, display_name_or_empty, event_needs_lookup, topic_link,
    truncate_text, wall_attachment,
};
use vkbot::protocol::Event;
use vkbot::session::User;

fn user(first: Option<&str>, last: Option<&str>) -> User {
    User {
        first_name: first.map(|s| s.to_owned()),
        last_name: last.map(|s| s.to_owned()),
    }
}

#[test]
fn truncation_is_exact_at_the_boundary() {
    let just_under = "a".repeat(99);
    let exact = "a".repeat(100);
    let just_over = "a".repeat(101);
    assert_eq!(truncate_text(&just_under), just_under);
    assert_eq!(truncate_text(&exact), exact);
    assert_eq!(truncate_text(&just_over), exact);
}

#[test]
fn truncation_counts_scalar_values_not_bytes() {
    let over = "ä".repeat(101);
    let truncated = truncate_text(&over);
    assert_eq!(truncated.chars().count(), 100);
    assert_eq!(truncated, "ä".repeat(100));
}

#[test]
fn truncation_keeps_short_text_whole() {
    assert_eq!(truncate_text(""), "");
    assert_eq!(truncate_text("hello"), "hello");
}

#[test]
fn wall_attachment_format() {
    assert_eq!(wall_attachment(77, 28), "wall-77_28");
    assert_eq!(wall_attachment(5, -7), "wall-5_-7");
}

#[test]
fn topic_link_format() {
    assert_eq!(topic_link(77, 456, 123), "https://vk.com/topic-77_456?post=123");
}

#[test]
fn display_name_joins_both_parts() {
    assert_eq!(display_name_or_empty(Some(&user(Some("John"), Some("Smith")))), "John Smith");
    assert_eq!(display_name_or_empty(Some(&user(Some("John"), None))), "John ");
    assert_eq!(display_name_or_empty(Some(&user(None, None))), " ");
    assert_eq!(display_name_or_empty(None), "");
}

#[test]
fn board_message_format() {
    let m = board_post_message("John Smith", "hello", 77, 456, 123);
    assert_eq!(m, "John Smith: hello \n https://vk.com/topic-77_456?post=123");
}

#[test]
fn board_message_truncates_text() {
    let long = "x".repeat(150);
    let m = board_post_message("A", &long, 1, 2, 3);
    let expected = format!("A: {} \n https://vk.com/topic-1_2?post=3", "x".repeat(100));
    assert_eq!(m, expected);
}

#[test]
fn wall_post_relays_attachment_only() {
    let content = compose_relay(&Event::WallPost { id: 28 }, 77, None);
    assert_eq!(content.message, None);
    assert_eq!(content.attachment, Some("wall-77_28".to_owned()));
}

#[test]
fn board_post_relays_message_only() {
    let e = Event::BoardPost {
        from_id: 1000,
        text: "hi".to_owned(),
        topic_id: 456,
        id: 123,
    };
    let content = compose_relay(&e, 77, Some(&user(Some("A"), Some("B"))));
    assert_eq!(content.attachment, None);
    assert_eq!(content.message, Some("A B: hi \n https://vk.com/topic-77_456?post=123".to_owned()));
}

#[test]
fn board_post_with_failed_lookup_uses_empty_name() {
    let e = Event::BoardPost {
        from_id: 1000,
        text: "hi".to_owned(),
        topic_id: 456,
        id: 123,
    };
    let content = compose_relay(&e, 77, None);
    assert_eq!(content.message, Some(": hi \n https://vk.com/topic-77_456?post=123".to_owned()));
}

#[test]
fn only_board_posts_need_a_lookup() {
    assert_eq!(event_needs_lookup(&Event::WallPost { id: 3 }), None);
    let e = Event::BoardPost {
        from_id: 1000,
        text: "t".to_owned(),
        topic_id: 1,
        id: 2,
    };
    assert_eq!(event_needs_lookup(&e), Some(1000));
}

#[test]
fn identifiers_render_at_the_extremes() {
    assert_eq!(
        wall_attachment(u64::MAX, i64::MIN),
        "wall-18446744073709551615_-9223372036854775808"
    );
    assert_eq!(wall_attachment(0, 0), "wall-0_0");
}
