//! Message events as the event bus carries them.
use vstd::prelude::*;

use crate::platform::message::{message_type_name, AstrBotMessage, MessageType};
use crate::platform::metadata::PlatformMetadata;
use crate::text::{push_str, str_eq, string_from};

verus! {

/// A received message together with where it came from.
#[derive(Debug, Clone)]
pub struct AstrMessageEvent {
    pub message_str: String,
    pub message_obj: AstrBotMessage,
    pub platform_meta: PlatformMetadata,
    pub session_id: String,
    pub role: String,
    pub is_wake: bool,
    pub unified_msg_origin: String,
}

/// The unified message origin `platform_id:type:session_id`.
pub open spec fn unified_origin(platform_id: Seq<char>, t: MessageType, session_id: Seq<char>) -> Seq<char> {
    platform_id + ":"@ + message_type_name(t) + ":"@ + session_id
}

/// The nickname of a sender, or empty text when there is none.
pub open spec fn nickname_or_empty(n: Option<String>) -> Seq<char> {
    match n {
        Some(s) => s@,
        None => Seq::empty(),
    }
}

impl AstrMessageEvent {
    pub fn new(message_obj: AstrBotMessage, platform_meta: PlatformMetadata, session_id: &str) -> (r: AstrMessageEvent)
        ensures
            r.message_str@ == message_obj.message_str@,
            r.message_obj == message_obj,
            r.platform_meta == platform_meta,
            r.session_id@ == session_id@,
            r.role@ == "member"@,
            !r.is_wake,
            r.unified_msg_origin@ == unified_origin(platform_meta.id@, message_obj.message_type, session_id@),
    {
        let mut origin = platform_meta.id.clone();
        push_str(&mut origin, ":");
        push_str(&mut origin, message_obj.message_type.as_str());
        push_str(&mut origin, ":");
        push_str(&mut origin, session_id);
        AstrMessageEvent {
            message_str: message_obj.message_str.clone(),
            message_obj,
            platform_meta,
            session_id: string_from(session_id),
            role: string_from("member"),
            is_wake: false,
            unified_msg_origin: origin,
        }
    }

    pub fn get_platform_name(&self) -> (r: &str)
        ensures
            r@ == self.platform_meta.name@,
    {
        self.platform_meta.name.as_str()
    }

    pub fn get_platform_id(&self) -> (r: &str)
        ensures
            r@ == self.platform_meta.id@,
    {
        self.platform_meta.id.as_str()
    }

    pub fn get_message_str(&self) -> (r: &str)
        ensures
            r@ == self.message_str@,
    {
        self.message_str.as_str()
    }

    pub fn get_sender_id(&self) -> (r: &str)
        ensures
            r@ == self.message_obj.sender.user_id@,
    {
        self.message_obj.sender.user_id.as_str()
    }

    pub fn get_sender_name(&self) -> (r: &str)
        ensures
            r@ == nickname_or_empty(self.message_obj.sender.nickname),
    {
        match &self.message_obj.sender.nickname {
            Some(n) => n.as_str(),
            None => {
                proof {
                    reveal_strlit("");
                }
                ""
            },
        }
    }

    pub fn is_private(&self) -> (r: bool)
        ensures
            r == (self.message_obj.message_type == MessageType::FriendMessage),
    {
        self.message_obj.message_type == MessageType::FriendMessage
    }

    pub fn is_admin(&self) -> (r: bool)
        ensures
            r == (self.role@ == "admin"@),
    {
        str_eq(self.role.as_str(), "admin")
    }
}

} // verus!
