//! The WebSocket bridge adapter's protocol logic.
use vstd::prelude::*;

use crate::json::{json_object, members_view, Json, JsonValue};
use crate::platform::event::{unified_origin, AstrMessageEvent};
use crate::platform::message::{AstrBotMessage, Group, MessageMember, MessageType};
use crate::platform::message_chain::MessageChain;
use crate::platform::metadata::PlatformMetadata;
use crate::platform::sources::weixin_oc::adapter::{non_empty, or_empty};
use crate::text::{str_eq, string_from};

verus! {

/// The bridge adapter's state: its identity, the bridge address, and the ids of
/// messages already delivered.
pub struct EcsBridgeAdapter {
    pub meta: PlatformMetadata,
    pub ws_url: String,
    pub seen_ids: Vec<String>,
}

/// The ids of delivered messages after `id` is recorded: past 10000, the oldest
/// 5000 are forgotten.
pub open spec fn bridge_seen_after(seen: Seq<Seq<char>>, id: Seq<char>) -> Seq<Seq<char>> {
    let s = seen.push(id);
    if s.len() > 10000 {
        s.skip(5000)
    } else {
        s
    }
}

/// Law: the memory of delivered ids stays bounded: recording an id into at most
/// 10000 ids leaves at most 10000, and the id just recorded is remembered.
pub proof fn lemma_bridge_seen_bounded(seen: Seq<Seq<char>>, id: Seq<char>)
    requires
        seen.len() <= 10000,
    ensures
        bridge_seen_after(seen, id).len() <= 10000,
        bridge_seen_after(seen, id).contains(id),
{
    let s = seen.push(id);
    assert(s[s.len() - 1] == id);
    if s.len() > 10000 {
        assert(s.skip(5000)[s.len() - 1 - 5000] == id);
    }
}

/// The `data` member of a bridge frame of type `message`.
pub open spec fn message_frame_data(frame: Json) -> Option<Json> {
    if frame.get_str("type"@) == Some("message"@) {
        frame.get("data"@)
    } else {
        None
    }
}

impl EcsBridgeAdapter {
    /// The ids of delivered messages.
    pub open spec fn seen_view(&self) -> Seq<Seq<char>> {
        Seq::new(self.seen_ids@.len(), |i: int| self.seen_ids@[i]@)
    }

    pub fn new(id: &str, ws_url: &str) -> (r: EcsBridgeAdapter)
        ensures
            r.meta.id@ == id@,
            r.meta.name@ == "ecs_bridge"@,
            r.meta.display_name@ == "微信"@,
            !r.meta.support_streaming,
            r.ws_url@ == ws_url@,
            r.seen_ids@.len() == 0,
    {
        EcsBridgeAdapter {
            meta: PlatformMetadata::new(id, "ecs_bridge", "微信"),
            ws_url: string_from(ws_url),
            seen_ids: Vec::new(),
        }
    }

    fn has_seen(&self, id: &str) -> (r: bool)
        ensures
            r == self.seen_view().contains(id@),
    {
        let mut i: usize = 0;
        while i < self.seen_ids.len()
            invariant
                i <= self.seen_ids@.len(),
                forall|k: int| 0 <= k < i ==> self.seen_ids@[k]@ != id@,
            decreases self.seen_ids.len() - i,
        {
            if str_eq(self.seen_ids[i].as_str(), id) {
                assert(self.seen_view()[i as int] == id@);
                return true;
            }
            i = i + 1;
        }
        false
    }

    /// Reads one frame from the bridge: a `message` frame with a session id becomes
    /// an event, unless its (non-empty) message id was delivered before.
    pub fn parse_incoming(&mut self, json: &JsonValue) -> (r: Option<AstrMessageEvent>)
        ensures
            final(self).meta == old(self).meta,
            final(self).ws_url == old(self).ws_url,
            ({
                match message_frame_data(json@) {
                    None => r is None && final(self).seen_view() == old(self).seen_view(),
                    Some(data) => match data.get_str("session_id"@) {
                        None => r is None && final(self).seen_view() == old(self).seen_view(),
                        Some(sid) => {
                            let mid = or_empty(data.get_str("message_id"@));
                            if mid.len() > 0 && old(self).seen_view().contains(mid) {
                                r is None && final(self).seen_view() == old(self).seen_view()
                            } else {
                                &&& final(self).seen_view() == if mid.len() > 0 {
                                    bridge_seen_after(old(self).seen_view(), mid)
                                } else {
                                    old(self).seen_view()
                                }
                                &&& r matches Some(ev) && bridge_event(ev, old(self).meta, data, sid)
                            }
                        },
                    },
                }
            }),
    {
        let msg_type = match json.get_str("type") {
            Some(t) => t,
            None => {
                return None;
            },
        };
        if !str_eq(msg_type.as_str(), "message") {
            return None;
        }
        let data = match json.get("data") {
            Some(d) => d,
            None => {
                return None;
            },
        };
        let session_id = match data.get_str("session_id") {
            Some(s) => s,
            None => {
                return None;
            },
        };
        let sender_id = match data.get_str("sender_id") {
            Some(s) => s,
            None => String::new(),
        };
        let sender_name = match data.get_str("sender_name") {
            Some(s) => s,
            None => String::new(),
        };
        let message_id = match data.get_str("message_id") {
            Some(s) => s,
            None => String::new(),
        };
        let text = match data.get_str("text") {
            Some(s) => s,
            None => String::new(),
        };
        let is_group = match data.get_str("message_type") {
            Some(t) => str_eq(t.as_str(), "group"),
            None => false,
        };
        let group_id = match data.get_str("group_id") {
            Some(g) => if g.as_str().is_empty() {
                None
            } else {
                Some(g)
            },
            None => None,
        };
        if !message_id.as_str().is_empty() {
            if self.has_seen(message_id.as_str()) {
                return None;
            }
            let ghost s0 = self.seen_view();
            self.seen_ids.push(message_id.clone());
            assert(self.seen_view() =~= s0.push(message_id@));
            if self.seen_ids.len() > 10000 {
                let ghost s1 = self.seen_view();
                let kept = self.seen_ids.split_off(5000);
                self.seen_ids = kept;
                assert(self.seen_view() =~= s1.skip(5000));
            }
        }
        let message_type = if is_group {
            MessageType::GroupMessage
        } else {
            MessageType::FriendMessage
        };
        let mut bot_msg = AstrBotMessage::new(
            message_type,
            self.meta.id.as_str(),
            session_id.as_str(),
            message_id.as_str(),
            MessageMember::new(sender_id.as_str()),
            text.as_str(),
        );
        bot_msg.sender.nickname = Some(sender_name);
        match group_id {
            Some(gid) => {
                bot_msg.group = Some(Group::new(gid.as_str()));
            },
            None => {},
        }
        Some(AstrMessageEvent::new(bot_msg, self.meta.duplicate(), session_id.as_str()))
    }
}

/// What a bridge `message` frame with data `data` and session `sid` becomes.
pub open spec fn bridge_event(ev: AstrMessageEvent, meta: PlatformMetadata, data: Json, sid: Seq<char>) -> bool {
    let m = ev.message_obj;
    let gid = non_empty(data.get_str("group_id"@));
    &&& m.message_type == (if data.get_str("message_type"@) == Some("group"@) {
        MessageType::GroupMessage
    } else {
        MessageType::FriendMessage
    })
    &&& m.self_id@ == meta.id@
    &&& m.session_id@ == sid
    &&& m.message_id@ == or_empty(data.get_str("message_id"@))
    &&& m.sender.user_id@ == or_empty(data.get_str("sender_id"@))
    &&& (m.sender.nickname matches Some(n) && n@ == or_empty(data.get_str("sender_name"@)))
    &&& match gid {
        Some(g) => (m.group matches Some(gr) && gr.group_id@ == g),
        None => m.group is None,
    }
    &&& m.message_str@ == or_empty(data.get_str("text"@))
    &&& ev.message_str@ == m.message_str@
    &&& ev.session_id@ == sid
    &&& ev.platform_meta.id@ == meta.id@
    &&& ev.platform_meta.name@ == meta.name@
    &&& ev.unified_msg_origin@ == unified_origin(meta.id@, m.message_type, sid)
}

/// Law: the event made from a bridge message frame carries the frame's own
/// sender (id and name), message id and text, with missing text fields read as
/// empty; its session is the frame's session id, which stands for nothing else,
/// and it is a group message exactly when the frame says `group`.
pub proof fn lemma_bridge_event_fields(ev: AstrMessageEvent, meta: PlatformMetadata, data: Json, sid: Seq<char>)
    requires
        bridge_event(ev, meta, data, sid),
    ensures
        ev.message_obj.sender.user_id@ == (match data.get_str("sender_id"@) {
            Some(s) => s,
            None => Seq::<char>::empty(),
        }),
        ev.message_obj.sender.nickname matches Some(n) && n@ == (match data.get_str("sender_name"@) {
            Some(s) => s,
            None => Seq::<char>::empty(),
        }),
        ev.message_obj.message_id@ == (match data.get_str("message_id"@) {
            Some(s) => s,
            None => Seq::<char>::empty(),
        }),
        ev.message_obj.message_str@ == (match data.get_str("text"@) {
            Some(s) => s,
            None => Seq::<char>::empty(),
        }),
        ev.message_str@ == ev.message_obj.message_str@,
        ev.session_id@ == sid,
        ev.message_obj.session_id@ == sid,
        ev.message_obj.self_id@ == meta.id@,
        (ev.message_obj.message_type == MessageType::GroupMessage) == (data.get_str("message_type"@) == Some(
            "group"@,
        )),
{
}

/// The delay before reconnecting and the next backoff: a clean end resets the
/// backoff to one second; each wait doubles it, up to 30 seconds.
pub fn reconnect_backoff(ended_cleanly: bool, backoff: u64) -> (r: (u64, u64))
    requires
        backoff <= 30,
    ensures
        r.0 == (if ended_cleanly { 1 } else { backoff }),
        r.1 == (if 2 * r.0 < 30 { 2 * r.0 } else { 30 }),
        r.0 <= 30,
        r.1 <= 30,
{
    let delay: u64 = if ended_cleanly { 1 } else { backoff };
    let doubled = delay * 2;
    let next: u64 = if doubled < 30 { doubled } else { 30 };
    (delay, next)
}

/// `{"type": "send_message", "data": {"session_id": ..., "text": ...}}`.
pub open spec fn bridge_send_spec(session_id: Seq<char>, text: Seq<char>) -> Json {
    Json::Object(seq![
        ("type"@, Json::Str("send_message"@)),
        ("data"@, Json::Object(seq![("session_id"@, Json::Str(session_id)), ("text"@, Json::Str(text))])),
    ])
}

/// The frame that sends the plain text of `message` to `session_id`; `None` when
/// the message has no text.
pub fn outgoing_frame(session_id: &str, message: &MessageChain) -> (r: Option<JsonValue>)
    ensures
        message.text_of().len() == 0 ==> r is None,
        message.text_of().len() > 0 ==> (r matches Some(v) && v@ == bridge_send_spec(session_id@, message.text_of())),
{
    let text = message.get_plain_text();
    if text.as_str().is_empty() {
        return None;
    }
    let ghost tv = text@;
    let mut data: Vec<(String, JsonValue)> = Vec::new();
    data.push((string_from("session_id"), JsonValue::string(session_id)));
    data.push((string_from("text"), JsonValue::Str(text)));
    assert(members_view(data@) =~= seq![("session_id"@, Json::Str(session_id@)), ("text"@, Json::Str(tv))]);
    let data = json_object(data);
    let mut outer: Vec<(String, JsonValue)> = Vec::new();
    outer.push((string_from("type"), JsonValue::string("send_message")));
    outer.push((string_from("data"), data));
    assert(members_view(outer@) =~= bridge_send_spec(session_id@, tv)->Object_0);
    Some(json_object(outer))
}

} // verus!
