//! Messages received from platforms.
use vstd::prelude::*;

use crate::platform::message_chain::MessageChain;
use crate::text::{str_eq, string_from};

verus! {

/// Where a message was sent.
#[derive(Debug, Clone, Copy, PartialEq, Eq, Structural)]
pub enum MessageType {
    FriendMessage,
    GroupMessage,
    ChannelMessage,
    Unknown,
}

/// The short name of a message type.
pub open spec fn message_type_name(t: MessageType) -> Seq<char> {
    match t {
        MessageType::FriendMessage => "friend"@,
        MessageType::GroupMessage => "group"@,
        MessageType::ChannelMessage => "channel"@,
        MessageType::Unknown => "unknown"@,
    }
}

/// The message type a short name stands for (`Unknown` for any other text).
pub open spec fn message_type_named(s: Seq<char>) -> MessageType {
    if s == "friend"@ {
        MessageType::FriendMessage
    } else if s == "group"@ {
        MessageType::GroupMessage
    } else if s == "channel"@ {
        MessageType::ChannelMessage
    } else {
        MessageType::Unknown
    }
}

impl MessageType {
    pub fn as_str(&self) -> (r: &'static str)
        ensures
            r@ == message_type_name(*self),
    {
        match self {
            MessageType::FriendMessage => "friend",
            MessageType::GroupMessage => "group",
            MessageType::ChannelMessage => "channel",
            MessageType::Unknown => "unknown",
        }
    }

    pub fn from_str(s: &str) -> (r: MessageType)
        ensures
            r == message_type_named(s@),
    {
        if str_eq(s, "friend") {
            MessageType::FriendMessage
        } else if str_eq(s, "group") {
            MessageType::GroupMessage
        } else if str_eq(s, "channel") {
            MessageType::ChannelMessage
        } else {
            MessageType::Unknown
        }
    }
}

/// Law: every message type is recovered from its short name, and a text that names
/// a type is the name of the type it parses to.
pub proof fn lemma_message_type_round_trip(t: MessageType, s: Seq<char>)
    ensures
        message_type_named(message_type_name(t)) == t,
        message_type_named(s) != MessageType::Unknown ==> message_type_name(message_type_named(s)) == s,
        message_type_named(s) == MessageType::Unknown ==> (s == "unknown"@ || (s != "friend"@ && s != "group"@ && s != "channel"@)),
{
    reveal_strlit("friend");
    reveal_strlit("group");
    reveal_strlit("channel");
    reveal_strlit("unknown");
    assert("friend"@.len() == 6 && "group"@.len() == 5 && "channel"@.len() == 7 && "unknown"@.len() == 7);
    assert("channel"@[0] != "unknown"@[0]);
    assert("friend"@ != "group"@ && "friend"@ != "channel"@ && "friend"@ != "unknown"@);
    assert("group"@ != "channel"@ && "group"@ != "unknown"@);
    assert("channel"@ != "unknown"@);
}

/// The sender of a message.
#[derive(Debug, Clone)]
pub struct MessageMember {
    pub user_id: String,
    pub nickname: Option<String>,
}

impl MessageMember {
    pub fn new(user_id: &str) -> (r: MessageMember)
        ensures
            r.user_id@ == user_id@,
            r.nickname is None,
    {
        MessageMember { user_id: string_from(user_id), nickname: None }
    }
}

/// The group a message was sent in.
#[derive(Debug, Clone)]
pub struct Group {
    pub group_id: String,
    pub group_name: Option<String>,
}

impl Group {
    pub fn new(group_id: &str) -> (r: Group)
        ensures
            r.group_id@ == group_id@,
            r.group_name is None,
    {
        Group { group_id: string_from(group_id), group_name: None }
    }
}

/// A message as a platform delivered it.
#[derive(Debug, Clone)]
pub struct AstrBotMessage {
    pub message_type: MessageType,
    pub self_id: String,
    pub session_id: String,
    pub message_id: String,
    pub sender: MessageMember,
    pub group: Option<Group>,
    pub message: MessageChain,
    pub message_str: String,
    pub timestamp: i64,
}

/// Reads the system clock: `std::time::SystemTime::now().duration_since(UNIX_EPOCH)`,
/// in whole seconds, or `None` where the clock reads before 1970. Nothing is
/// claimed of the value, which depends on the clock.
#[verifier::external_body]
fn clock_seconds() -> (r: Option<u64>) {
    std::time::SystemTime::now().duration_since(std::time::UNIX_EPOCH).ok().map(|d| d.as_secs())
}

/// The Unix time in seconds that a reading of the clock gives: the seconds read,
/// capped at `i64::MAX`, or 0 (the epoch) where the clock reads before 1970.
pub open spec fn timestamp_spec(reading: Option<u64>) -> i64 {
    match reading {
        Some(s) => if s <= i64::MAX as u64 {
            s as i64
        } else {
            i64::MAX
        },
        None => 0,
    }
}

/// The Unix timestamp for a reading of the clock (see `timestamp_spec`).
pub fn timestamp_from(reading: Option<u64>) -> (r: i64)
    ensures
        r == timestamp_spec(reading),
{
    match reading {
        Some(s) => if s <= i64::MAX as u64 {
            s as i64
        } else {
            i64::MAX
        },
        None => 0,
    }
}

/// The current Unix time in seconds; never negative: a clock that reads before
/// 1970 gives 0.
pub(crate) fn unix_now() -> (r: i64)
    ensures
        r >= 0,
{
    timestamp_from(clock_seconds())
}

impl AstrBotMessage {
    /// A message with no group and an empty chain, stamped with the time `timestamp`.
    pub fn new_at(
        message_type: MessageType,
        self_id: &str,
        session_id: &str,
        message_id: &str,
        sender: MessageMember,
        message_str: &str,
        timestamp: i64,
    ) -> (r: AstrBotMessage)
        ensures
            r.message_type == message_type,
            r.self_id@ == self_id@,
            r.session_id@ == session_id@,
            r.message_id@ == message_id@,
            r.sender == sender,
            r.group is None,
            r.message.chain@.len() == 0,
            r.message_str@ == message_str@,
            r.timestamp == timestamp,
    {
        AstrBotMessage {
            message_type,
            self_id: string_from(self_id),
            session_id: string_from(session_id),
            message_id: string_from(message_id),
            sender,
            group: None,
            message: MessageChain::new(),
            message_str: string_from(message_str),
            timestamp,
        }
    }

    /// A message with no group and an empty chain, stamped with the current time.
    pub fn new(
        message_type: MessageType,
        self_id: &str,
        session_id: &str,
        message_id: &str,
        sender: MessageMember,
        message_str: &str,
    ) -> (r: AstrBotMessage)
        ensures
            r.message_type == message_type,
            r.self_id@ == self_id@,
            r.session_id@ == session_id@,
            r.message_id@ == message_id@,
            r.sender == sender,
            r.group is None,
            r.message.chain@.len() == 0,
            r.message_str@ == message_str@,
            r.timestamp >= 0,
    {
        let now = unix_now();
        AstrBotMessage::new_at(message_type, self_id, session_id, message_id, sender, message_str, now)
    }
}

} // verus!
