//! The adapter's message event.
use vstd::prelude::*;

use crate::platform::event::{unified_origin, AstrMessageEvent};
use crate::platform::message::AstrBotMessage;
use crate::platform::metadata::PlatformMetadata;

verus! {

/// A message event of the personal WeChat adapter, in the message's own session.
pub struct WeixinOCMessageEvent {
    pub inner: AstrMessageEvent,
}

impl WeixinOCMessageEvent {
    pub fn new(message: AstrBotMessage, platform_meta: PlatformMetadata) -> (r: WeixinOCMessageEvent)
        ensures
            r.inner.message_obj == message,
            r.inner.platform_meta == platform_meta,
            r.inner.session_id@ == message.session_id@,
            r.inner.message_str@ == message.message_str@,
            r.inner.role@ == "member"@,
            !r.inner.is_wake,
            r.inner.unified_msg_origin@ == unified_origin(platform_meta.id@, message.message_type, message.session_id@),
    {
        let session_id = message.session_id.clone();
        WeixinOCMessageEvent { inner: AstrMessageEvent::new(message, platform_meta, session_id.as_str()) }
    }
}

} // verus!
