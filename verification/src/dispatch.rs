//! The event dispatcher's pure half: what each recognized event turns into —
//! an attachment reference for a wall post, a composed message for a board
//! post — with the text truncation the relay applies.

use vstd::prelude::*;
use crate::numtext::{i64_dec, i64_to_dec, u64_dec, u64_to_dec};
use crate::protocol::Event;
use crate::session::{User, UserModel};

verus! {

/// The longest text, in Unicode scalar values, a board-post relay carries.
pub const TEXT_LIMIT: usize = 100;

/// `s` cut to the first [`TEXT_LIMIT`] characters; a shorter text is kept
/// whole.
pub open spec fn truncated(s: Seq<char>) -> Seq<char> {
    if s.len() <= TEXT_LIMIT {
        s
    } else {
        s.take(TEXT_LIMIT as int)
    }
}

/// Truncation never yields more than the limit, is prefix-based, and is exact
/// at the boundary: a text within the limit is unchanged, a longer one keeps
/// exactly its first [`TEXT_LIMIT`] characters.
pub proof fn lemma_truncation(s: Seq<char>)
    ensures
        truncated(s).len() <= TEXT_LIMIT,
        s.len() <= TEXT_LIMIT ==> truncated(s) == s,
        s.len() > TEXT_LIMIT ==> truncated(s).len() == TEXT_LIMIT,
        forall|i: int| 0 <= i < truncated(s).len() ==> truncated(s)[i] == s[i],
{
}

/// Cut a text to the first [`TEXT_LIMIT`] characters.
pub fn truncate_text(s: &str) -> (r: String)
    ensures
        r@ == truncated(s@),
{
    let n = s.unicode_len();
    if n <= TEXT_LIMIT {
        String::from_str(s)
    } else {
        String::from_str(s.substring_char(0, TEXT_LIMIT))
    }
}

/// The attachment reference relayed for a wall post: the feed group and the
/// post, joined as the messaging collaborator expects them.
pub open spec fn wall_attachment_spec(group_id: u64, id: int) -> Seq<char> {
    "wall-"@ + u64_dec(group_id as int) + "_"@ + i64_dec(id)
}

/// Build the attachment reference for a wall post.
pub fn wall_attachment(group_id: u64, id: i64) -> (r: String)
    ensures
        r@ == wall_attachment_spec(group_id, id as int),
{
    let mut r = String::from_str("wall-");
    let g = u64_to_dec(group_id);
    r.append(g.as_str());
    r.append("_");
    let i = i64_to_dec(id);
    r.append(i.as_str());
    r
}

/// The deep link into a board topic carried by a board-post relay.
pub open spec fn topic_link_spec(group_id: u64, topic_id: int, id: int) -> Seq<char> {
    "https://vk.com/topic-"@ + u64_dec(group_id as int) + "_"@ + i64_dec(topic_id) + "?post="@
        + i64_dec(id)
}

/// Build the deep link into a board topic.
pub fn topic_link(group_id: u64, topic_id: i64, id: i64) -> (r: String)
    ensures
        r@ == topic_link_spec(group_id, topic_id as int, id as int),
{
    let mut r = String::from_str("https://vk.com/topic-");
    let g = u64_to_dec(group_id);
    r.append(g.as_str());
    r.append("_");
    let t = i64_to_dec(topic_id);
    r.append(t.as_str());
    r.append("?post=");
    let i = i64_to_dec(id);
    r.append(i.as_str());
    r
}

/// A name part that may be absent counts as empty.
pub open spec fn opt_name(n: Option<Seq<char>>) -> Seq<char> {
    match n {
        Some(s) => s,
        None => Seq::empty(),
    }
}

/// The display name composed for a user: first and last name joined by one
/// space, each part empty when absent.
pub open spec fn display_name_spec(u: UserModel) -> Seq<char> {
    opt_name(u.first_name) + " "@ + opt_name(u.last_name)
}

/// The name a board-post relay uses: the user's display name, or empty when
/// the lookup failed.
pub open spec fn relay_name(user: Option<UserModel>) -> Seq<char> {
    match user {
        Some(u) => display_name_spec(u),
        None => Seq::empty(),
    }
}

/// Compose the display name for a looked-up user, or substitute the empty
/// name when the lookup failed.
pub fn display_name_or_empty(user: Option<&User>) -> (r: String)
    ensures
        r@ == relay_name(match user {
            Some(u) => Some(u@),
            None => None,
        }),
{
    match user {
        Some(u) => {
            let mut r = match &u.first_name {
                Some(n) => n.clone(),
                None => String::new(),
            };
            r.append(" ");
            match &u.last_name {
                Some(n) => r.append(n.as_str()),
                None => (),
            };
            r
        },
        None => String::new(),
    }
}

/// The message composed for a board post: the author's name, the truncated
/// text, and the deep link.
pub open spec fn board_message_spec(
    name: Seq<char>,
    text: Seq<char>,
    group_id: u64,
    topic_id: int,
    id: int,
) -> Seq<char> {
    name + ": "@ + truncated(text) + " \n "@ + topic_link_spec(group_id, topic_id, id)
}

/// Compose the message a board post is relayed as.
pub fn board_post_message(name: &str, text: &str, group_id: u64, topic_id: i64, id: i64) -> (r:
    String)
    ensures
        r@ == board_message_spec(name@, text@, group_id, topic_id as int, id as int),
{
    let mut r = String::from_str(name);
    r.append(": ");
    let t = truncate_text(text);
    r.append(t.as_str());
    r.append(" \n ");
    let link = topic_link(group_id, topic_id, id);
    r.append(link.as_str());
    r
}

/// What one event is relayed as: a text message, an attachment reference, or
/// both.
#[derive(Debug)]
pub struct RelayContent {
    pub message: Option<String>,
    pub attachment: Option<String>,
}

/// The user whose display name a board post needs before it can be relayed;
/// a wall post needs none.
pub fn event_needs_lookup(event: &Event) -> (r: Option<i64>)
    ensures
        match *event {
            Event::BoardPost { from_id, .. } => r == Some(from_id),
            Event::WallPost { .. } => r is None,
        },
{
    match event {
        Event::BoardPost { from_id, .. } => Some(*from_id),
        Event::WallPost { .. } => None,
    }
}

/// Compose the relay content for one event: a wall post becomes an attachment
/// reference with no text; a board post becomes a text message with no
/// attachment, its author resolved from `looked_up` (empty name when the
/// lookup failed).
pub fn compose_relay(event: &Event, group_id: u64, looked_up: Option<&User>) -> (r: RelayContent)
    ensures
        (match *event {
            Event::WallPost { id } => r.message is None && (r.attachment matches Some(a)
                && a@ == wall_attachment_spec(group_id, id as int)),
            Event::BoardPost { from_id, text, topic_id, id } => r.attachment is None && (
            r.message matches Some(m) && m@ == board_message_spec(
                relay_name(
                    match looked_up {
                        Some(u) => Some(u@),
                        None => None,
                    },
                ),
                text@,
                group_id,
                topic_id as int,
                id as int,
            )),
        }),
{
    match event {
        Event::WallPost { id } => RelayContent {
            message: None,
            attachment: Some(wall_attachment(group_id, *id)),
        },
        Event::BoardPost { from_id: _, text, topic_id, id } => {
            let name = display_name_or_empty(looked_up);
            RelayContent {
                message: Some(
                    board_post_message(name.as_str(), text.as_str(), group_id, *topic_id, *id),
                ),
                attachment: None,
            }
        },
    }
}

} // verus!
