//! The personal WeChat adapter's protocol logic: reading sync responses, the QR
//! login steps, and shaping outgoing messages.
use vstd::prelude::*;

use crate::assoc::{assoc_get, assoc_insert, assoc_lookup, assoc_put, assoc_view, AssocView};
use crate::json::{json_object, members_view, values_view, Json, JsonValue};
use crate::platform::message::{AstrBotMessage, Group, MessageMember, MessageType, unix_now};
use crate::platform::message_chain::{MessageChain, MessageComponent};
use crate::platform::metadata::PlatformMetadata;
use crate::platform::sources::weixin_oc::cache::{
    CachedMessage, CachedView, RecentMessageCache, SessionView, find_message, find_session, prune,
    upsert,
};
use crate::platform::sources::weixin_oc::crypto::{base64_std_encode, hex_encode, hex_encoded};
use vstd::utf8::encode_utf8;
use crate::platform::sources::weixin_oc::client::WeixinOCClient;
use crate::text::{chars_of, contains, decimal, decimal_string, push_char, push_str, str_contains, str_eq, string_from};

verus! {

// ---------------------------------------------------------------------------
// Random identifiers
// ---------------------------------------------------------------------------

/// The bytes of a version-4 UUID made from 16 random bytes: the high nibble of
/// byte 6 holds the version (4), the two high bits of byte 8 the RFC 4122 variant.
pub open spec fn v4_bits(b: Seq<u8>) -> Seq<u8> {
    b.update(6, (b[6] & 0x0fu8) | 0x40u8).update(8, (b[8] & 0x3fu8) | 0x80u8)
}

/// Calls `uuid::Builder::from_random_bytes(..).into_uuid().into_bytes()`, which keeps
/// the 16 bytes given and sets the version and variant bits in them as `v4_bits` says.
#[verifier::external_body]
fn v4_uuid_bytes(random: &[u8]) -> (r: Vec<u8>)
    requires
        random@.len() == 16,
    ensures
        r@ == v4_bits(random@),
{
    let mut bytes = [0u8; 16];
    bytes.copy_from_slice(random);
    uuid::Builder::from_random_bytes(bytes).into_uuid().into_bytes().to_vec()
}

/// Sixteen zero bytes: the nil UUID.
pub open spec fn nil_uuid() -> Seq<u8> {
    Seq::new(16, |i: int| 0u8)
}

/// The hyphenated lower-case text of 16 UUID bytes (`8-4-4-4-12` hex digits).
pub open spec fn uuid_text(b: Seq<u8>) -> Seq<char> {
    let h = hex_encoded(b);
    h.subrange(0, 8) + "-"@ + h.subrange(8, 12) + "-"@ + h.subrange(12, 16) + "-"@ + h.subrange(16, 20)
        + "-"@ + h.subrange(20, 32)
}

/// The hyphenated lower-case text of the UUID with bytes `b` (its `Display` form).
pub fn uuid_string(b: &[u8]) -> (r: String)
    requires
        b@.len() == 16,
    ensures
        r@ == uuid_text(b@),
{
    let h = hex_encode(b);
    let cs = chars_of(h.as_str());
    let mut r = String::new();
    let mut i: usize = 0;
    let ghost hv = hex_encoded(b@);
    assert(hv.len() == 32);
    while i < 32
        invariant
            i <= 32,
            cs@ == hv,
            hv.len() == 32,
            r@ == (if i <= 8 {
                hv.subrange(0, i as int)
            } else if i <= 12 {
                hv.subrange(0, 8) + "-"@ + hv.subrange(8, i as int)
            } else if i <= 16 {
                hv.subrange(0, 8) + "-"@ + hv.subrange(8, 12) + "-"@ + hv.subrange(12, i as int)
            } else if i <= 20 {
                hv.subrange(0, 8) + "-"@ + hv.subrange(8, 12) + "-"@ + hv.subrange(12, 16) + "-"@
                    + hv.subrange(16, i as int)
            } else {
                hv.subrange(0, 8) + "-"@ + hv.subrange(8, 12) + "-"@ + hv.subrange(12, 16) + "-"@
                    + hv.subrange(16, 20) + "-"@ + hv.subrange(20, i as int)
            }),
        decreases 32 - i,
    {
        proof {
            reveal_strlit("-");
        }
        if i == 8 || i == 12 || i == 16 || i == 20 {
            push_char(&mut r, '-');
        }
        push_char(&mut r, cs[i]);
        proof {
            assert(hv.subrange(0, i + 1) =~= hv.subrange(0, i as int).push(hv[i as int]));
            if i >= 8 {
                assert(hv.subrange(8, i + 1) =~= hv.subrange(8, i as int).push(hv[i as int]));
            }
            if i >= 12 {
                assert(hv.subrange(12, i + 1) =~= hv.subrange(12, i as int).push(hv[i as int]));
            }
            if i >= 16 {
                assert(hv.subrange(16, i + 1) =~= hv.subrange(16, i as int).push(hv[i as int]));
            }
            if i >= 20 {
                assert(hv.subrange(20, i + 1) =~= hv.subrange(20, i as int).push(hv[i as int]));
            }
            assert(hv.subrange(8, 8) =~= Seq::<char>::empty());
            assert(hv.subrange(12, 12) =~= Seq::<char>::empty());
            assert(hv.subrange(16, 16) =~= Seq::<char>::empty());
            assert(hv.subrange(20, 20) =~= Seq::<char>::empty());
        }
        i = i + 1;
        assert(r@ =~= (if i <= 8 {
            hv.subrange(0, i as int)
        } else if i <= 12 {
            hv.subrange(0, 8) + "-"@ + hv.subrange(8, i as int)
        } else if i <= 16 {
            hv.subrange(0, 8) + "-"@ + hv.subrange(8, 12) + "-"@ + hv.subrange(12, i as int)
        } else if i <= 20 {
            hv.subrange(0, 8) + "-"@ + hv.subrange(8, 12) + "-"@ + hv.subrange(12, 16) + "-"@
                + hv.subrange(16, i as int)
        } else {
            hv.subrange(0, 8) + "-"@ + hv.subrange(8, 12) + "-"@ + hv.subrange(12, 16) + "-"@
                + hv.subrange(16, 20) + "-"@ + hv.subrange(20, i as int)
        }));
    }
    r
}

/// Whether a read of the random source gave 16 bytes.
pub open spec fn sixteen_random(random: Result<Vec<u8>, String>) -> bool {
    random matches Ok(b) && b@.len() == 16
}

/// The version-4 UUID text made from a read of the random source, or the nil UUID
/// when the read failed.
pub open spec fn uuid_from_spec(random: Result<Vec<u8>, String>) -> Seq<char> {
    if sixteen_random(random) {
        uuid_text(v4_bits(random->Ok_0@))
    } else {
        uuid_text(nil_uuid())
    }
}

/// The hyphenated text of the version-4 UUID made from `random`, the outcome of a
/// read of 16 random bytes; the nil UUID when that read failed.
pub fn uuid_string_from(random: Result<Vec<u8>, String>) -> (r: String)
    ensures
        r@ == uuid_from_spec(random),
        r@.len() == 36,
{
    proof {
        reveal_strlit("-");
    }
    match random {
        Ok(b) => {
            if b.len() == 16 {
                let u = v4_uuid_bytes(b.as_slice());
                uuid_string(u.as_slice())
            } else {
                let z: Vec<u8> = vec![0u8; 16];
                assert(z@ =~= nil_uuid());
                uuid_string(z.as_slice())
            }
        },
        Err(_) => {
            let z: Vec<u8> = vec![0u8; 16];
            assert(z@ =~= nil_uuid());
            uuid_string(z.as_slice())
        },
    }
}

/// Whether `t` is the text of a version-4 UUID made from some 16 bytes, or of the
/// nil UUID.
pub open spec fn fresh_uuid_text(t: Seq<char>) -> bool {
    t == uuid_text(nil_uuid()) || exists|b: Seq<u8>| b.len() == 16 && t == #[trigger] uuid_text(v4_bits(b))
}

/// A fresh random version-4 UUID in its hyphenated text form (36 characters). When
/// the operating system's random source fails, the nil UUID
/// `00000000-0000-0000-0000-000000000000` stands in its place.
pub fn new_uuid_string() -> (r: String)
    ensures
        r@.len() == 36,
        fresh_uuid_text(r@),
{
    let random = crate::entropy::random_bytes(16);
    uuid_string_from(random)
}

// ---------------------------------------------------------------------------
// Reading sync responses
// ---------------------------------------------------------------------------

/// `Option::and_then(as_str)`.
pub open spec fn opt_str(o: Option<Json>) -> Option<Seq<char>> {
    match o {
        Some(v) => v.as_str(),
        None => None,
    }
}

/// `msg.get(a).or_else(|| msg.get(b))`.
pub open spec fn get_either(msg: Json, a: Seq<char>, b: Seq<char>) -> Option<Json> {
    match msg.get(a) {
        Some(v) => Some(v),
        None => msg.get(b),
    }
}

/// `Option::filter(|s| !s.is_empty())`.
pub open spec fn non_empty(o: Option<Seq<char>>) -> Option<Seq<char>> {
    match o {
        Some(s) => if s.len() > 0 {
            Some(s)
        } else {
            None
        },
        None => None,
    }
}

/// `unwrap_or("")`.
pub open spec fn or_empty(o: Option<Seq<char>>) -> Seq<char> {
    match o {
        Some(s) => s,
        None => Seq::empty(),
    }
}

/// The server's id of a synced message (`msg_id`, else `message_id`, as text).
pub open spec fn sync_msg_id(msg: Json) -> Option<Seq<char>> {
    opt_str(get_either(msg, "msg_id"@, "message_id"@))
}

/// The non-empty group id of a synced message, if any.
pub open spec fn sync_group_id(msg: Json) -> Option<Seq<char>> {
    non_empty(opt_str(get_either(msg, "from_group_id"@, "group_id"@)))
}

/// The non-empty id of the message a synced message quotes, if any.
pub open spec fn sync_ref_id(msg: Json) -> Option<Seq<char>> {
    non_empty(
        match msg.get("ref_msg"@) {
            Some(v) => match v.as_str() {
                Some(s) => Some(s),
                None => v.get_str("msg_id"@),
            },
            None => None,
        },
    )
}

/// The sender of a synced message (empty when missing).
pub open spec fn sync_from_user(msg: Json) -> Seq<char> {
    or_empty(msg.get_str("from_user_id"@))
}

/// The sender's nickname (empty when missing).
pub open spec fn sync_nickname(msg: Json) -> Seq<char> {
    or_empty(msg.get_str("from_nickname"@))
}

/// The session a synced message belongs to: its group, else its sender.
pub open spec fn sync_session_key(msg: Json) -> Seq<char> {
    match sync_group_id(msg) {
        Some(g) => g,
        None => sync_from_user(msg),
    }
}

/// The kind and display text of one item of a synced message.
pub open spec fn item_entry(item: Json) -> Option<(Seq<char>, Seq<char>)> {
    let t = match item.get("type"@) {
        Some(v) => match v.as_i64() {
            Some(n) => n,
            None => 0,
        },
        None => 0,
    };
    if t == 1 {
        Some(
            (
                "text"@,
                or_empty(
                    match item.get("text_item"@) {
                        Some(ti) => ti.get_str("text"@),
                        None => None,
                    },
                ),
            ),
        )
    } else if t == 2 {
        Some(("image"@, "[图片]"@))
    } else if t == 3 {
        Some(
            (
                "voice"@,
                match match item.get("voice_item"@) {
                    Some(vi) => vi.get_str("text"@),
                    None => None,
                } {
                    Some(s) => s,
                    None => "[语音]"@,
                },
            ),
        )
    } else if t == 4 {
        Some(("file"@, "[文件]"@))
    } else if t == 5 {
        Some(("video"@, "[视频]"@))
    } else {
        None
    }
}

/// The display texts of the recognised items, in order.
pub open spec fn item_texts(items: Seq<Json>) -> Seq<Seq<char>>
    decreases items.len(),
{
    if items.len() == 0 {
        Seq::empty()
    } else {
        let rest = item_texts(items.drop_last());
        match item_entry(items.last()) {
            Some(e) => rest.push(e.1),
            None => rest,
        }
    }
}

/// `parts` joined with single spaces.
pub open spec fn join_space(parts: Seq<Seq<char>>) -> Seq<char>
    decreases parts.len(),
{
    if parts.len() == 0 {
        Seq::empty()
    } else if parts.len() == 1 {
        parts[0]
    } else {
        join_space(parts.drop_last()) + " "@ + parts.last()
    }
}

/// Law: the texts of a run of items are the texts of its first part followed by
/// those of the rest: every recognised item contributes, in order.
pub proof fn lemma_item_texts_append(a: Seq<Json>, b: Seq<Json>)
    ensures
        item_texts(a + b) == item_texts(a) + item_texts(b),
    decreases b.len(),
{
    if b.len() == 0 {
        assert(a + b =~= a);
        assert(item_texts(a) + item_texts(b) =~= item_texts(a));
    } else {
        lemma_item_texts_append(a, b.drop_last());
        assert((a + b).drop_last() =~= a + b.drop_last());
        assert((a + b).last() == b.last());
        match item_entry(b.last()) {
            Some(e) => {
                assert(item_texts(a + b) == item_texts(a + b.drop_last()).push(e.1));
                assert(item_texts(a) + item_texts(b.drop_last()).push(e.1) =~= (item_texts(a) + item_texts(
                    b.drop_last(),
                )).push(e.1));
            },
            None => {},
        }
    }
}

/// Law: a single item gives its display text when it is recognised, and nothing
/// otherwise.
pub proof fn lemma_item_texts_single(x: Json)
    ensures
        item_texts(seq![x]) == match item_entry(x) {
            Some(e) => seq![e.1],
            None => Seq::<Seq<char>>::empty(),
        },
{
    assert(seq![x].drop_last() =~= Seq::<Json>::empty());
    assert(seq![x].last() == x);
    assert(item_texts(Seq::<Json>::empty()) == Seq::<Seq<char>>::empty());
    match item_entry(x) {
        Some(e) => {
            assert(Seq::<Seq<char>>::empty().push(e.1) =~= seq![e.1]);
        },
        None => {},
    }
}

/// Law: there is one text for each recognised item.
pub proof fn lemma_item_texts_count(items: Seq<Json>)
    ensures
        item_texts(items).len() == items.filter(|x: Json| item_entry(x) is Some).len(),
    decreases items.len(),
{
    if items.len() > 0 {
        lemma_item_texts_count(items.drop_last());
        items.drop_last().lemma_filter_push(items.last(), |x: Json| item_entry(x) is Some);
        assert(items.drop_last().push(items.last()) =~= items);
    } else {
        reveal_with_fuel(Seq::<Json>::filter, 1);
    }
}

/// Law: joining two non-empty runs of texts puts a single space between the two
/// joined runs; a single text is joined to itself.
pub proof fn lemma_join_space_append(a: Seq<Seq<char>>, b: Seq<Seq<char>>)
    requires
        a.len() > 0,
        b.len() > 0,
    ensures
        join_space(a + b) == join_space(a) + " "@ + join_space(b),
        join_space(seq![a[0]]) == a[0],
    decreases b.len(),
{
    if b.len() == 1 {
        assert((a + b).drop_last() =~= a);
        assert((a + b).last() == b[0]);
    } else {
        lemma_join_space_append(a, b.drop_last());
        assert((a + b).drop_last() =~= a + b.drop_last());
        assert((a + b).last() == b.last());
        assert(join_space(a) + " "@ + join_space(b.drop_last()) + " "@ + b.last() =~= join_space(a) + " "@ + (
        join_space(b.drop_last()) + " "@ + b.last()));
    }
}

/// The text of a message that quotes `ctx`.
pub open spec fn with_reply_context(ctx: Option<Seq<char>>, text: Seq<char>) -> Seq<char> {
    match ctx {
        Some(c) => "[回复: "@ + c + "] "@ + text,
        None => text,
    }
}

/// The ids of seen messages after `id` is recorded: past 10000, the older half is
/// forgotten.
pub open spec fn seen_after(seen: Seq<Seq<char>>, id: Seq<char>) -> Seq<Seq<char>> {
    let s = seen.push(id);
    if s.len() > 10000 {
        s.skip((s.len() / 2) as int)
    } else {
        s
    }
}

/// Law: the memory of seen ids stays bounded: recording an id into at most 10000
/// ids leaves at most 10000, and the id just recorded is remembered.
pub proof fn lemma_seen_bounded(seen: Seq<Seq<char>>, id: Seq<char>)
    requires
        seen.len() <= 10000,
    ensures
        seen_after(seen, id).len() <= 10000,
        seen_after(seen, id).contains(id),
{
    let s = seen.push(id);
    assert(s[s.len() - 1] == id);
    if s.len() > 10000 {
        let h = (s.len() / 2) as int;
        assert(s.skip(h)[s.len() - 1 - h] == id);
    }
}

/// The per-user context tokens after a synced message: a non-empty token of a
/// message with a known sender replaces the sender's token.
pub open spec fn tokens_after(tokens: AssocView, msg: Json) -> AssocView {
    match msg.get_str("context_token"@) {
        Some(t) => if t.len() > 0 && sync_from_user(msg).len() > 0 {
            assoc_put(tokens, sync_from_user(msg), t)
        } else {
            tokens
        },
        None => tokens,
    }
}

/// The text remembered for message `rid` of session `key`.
pub open spec fn cached_text(cache: Seq<SessionView>, key: Seq<char>, rid: Option<Seq<char>>) -> Option<Seq<char>> {
    match rid {
        Some(id) => {
            let i = find_session(cache, key);
            if i >= 0 {
                match find_message(cache[i].1, id) {
                    Some(m) => Some(m.text),
                    None => None,
                }
            } else {
                None
            }
        },
        None => None,
    }
}

/// What a file name found in `path` is like: not empty, without a `/`, and taken
/// from `path` itself.
pub open spec fn file_name_fits(path: Seq<char>, name: Option<Seq<char>>) -> bool {
    match name {
        Some(n) => n.len() > 0 && !n.contains('/') && contains(path, n),
        None => true,
    }
}

/// Calls std's `Path::new(path).file_name()`, then `to_string_lossy` (exact on text
/// that came from a `str`). Which component is the file name depends on the
/// platform's path separators, so the contract states only what holds everywhere:
/// a name found is a non-empty piece of `path` without a `/`.
#[verifier::external_body]
fn file_name_of(path: &str) -> (r: Option<String>)
    ensures
        file_name_fits(path@, match r {
            Some(s) => Some(s@),
            None => None,
        }),
{
    std::path::Path::new(path).file_name().map(|n| n.to_string_lossy().to_string())
}

/// A message to send, broken into the items the iLink API takes.
#[derive(Debug)]
pub enum OutgoingItem {
    /// Text, already merged from consecutive plain components.
    Text(String),
    /// A file to upload: its path, the upload media type, the item type, and the
    /// file name shown to the receiver (empty for images and voice).
    Media { path: String, upload_media_type: i64, item_type: i64, file_name: String },
}

/// An outgoing item as the specification sees it.
pub enum OutgoingSpec {
    Text(Seq<char>),
    Media(Seq<char>, i64, i64, Seq<char>),
}

impl OutgoingItem {
    pub open spec fn spec(&self) -> OutgoingSpec {
        match self {
            OutgoingItem::Text(t) => OutgoingSpec::Text(t@),
            OutgoingItem::Media { path, upload_media_type, item_type, file_name } => OutgoingSpec::Media(
                path@,
                *upload_media_type,
                *item_type,
                file_name@,
            ),
        }
    }
}

/// `items` with the pending text appended as a text item, if there is any.
pub open spec fn flush_text(items: Seq<OutgoingSpec>, pending: Seq<char>) -> Seq<OutgoingSpec> {
    if pending.len() > 0 {
        items.push(OutgoingSpec::Text(pending))
    } else {
        items
    }
}

/// The name a file component is sent under: its own, else the file name `found` in
/// its path, else `file`.
pub open spec fn outgoing_file_name(f: crate::platform::message_chain::File, found: Option<Seq<char>>) -> Seq<char> {
    if f.name@.len() == 0 {
        match found {
            Some(n) => n,
            None => "file"@,
        }
    } else {
        f.name@
    }
}

/// What the file name found for component `c` is like: for a file, a name that fits
/// its path (or none); for anything else, none.
pub open spec fn name_fits(c: MessageComponent, found: Option<Seq<char>>) -> bool {
    match c {
        MessageComponent::File(f) => file_name_fits(f.file@, found),
        _ => found is None,
    }
}

/// The items and pending text after the components `chain`, the file name found in
/// the path of component `j` being `found[j]`.
pub open spec fn plan_state(chain: Seq<MessageComponent>, found: Seq<Option<Seq<char>>>) -> (Seq<OutgoingSpec>, Seq<char>)
    decreases chain.len(),
{
    if chain.len() == 0 {
        (Seq::empty(), Seq::empty())
    } else {
        let (items, pending) = plan_state(chain.drop_last(), found.drop_last());
        match chain.last() {
            MessageComponent::Plain(p) => (items, pending + p.text@),
            MessageComponent::Image(img) => match img.path {
                Some(path) => (
                    flush_text(items, pending).push(OutgoingSpec::Media(path@, 1, 2, Seq::empty())),
                    Seq::empty(),
                ),
                None => (items, pending),
            },
            MessageComponent::File(f) => (
                flush_text(items, pending).push(
                    OutgoingSpec::Media(f.file@, 3, 4, outgoing_file_name(f, found.last())),
                ),
                Seq::empty(),
            ),
            MessageComponent::Record(rec) => (
                flush_text(items, pending).push(OutgoingSpec::Media(rec.file@, 1, 3, Seq::empty())),
                Seq::empty(),
            ),
            _ => (items, pending),
        }
    }
}

/// The items a chain is sent as.
pub open spec fn plan(chain: Seq<MessageComponent>, found: Seq<Option<Seq<char>>>) -> Seq<OutgoingSpec> {
    flush_text(plan_state(chain, found).0, plan_state(chain, found).1)
}

/// Law: a file component is planned, after whatever came before it, as an upload
/// of its path (media type 3, item type 4) under the name it was given; only a file
/// without a name is sent under the name found in its path, else `file`. Text
/// pending before it is sent first, and nothing is pending after it.
pub proof fn lemma_plan_file_name(
    chain: Seq<MessageComponent>,
    found: Seq<Option<Seq<char>>>,
    f: crate::platform::message_chain::File,
    x: Option<Seq<char>>,
)
    ensures
        ({
            let before = plan_state(chain, found);
            let after = plan_state(chain.push(MessageComponent::File(f)), found.push(x));
            &&& after.1.len() == 0
            &&& after.0 == flush_text(before.0, before.1).push(OutgoingSpec::Media(
                f.file@,
                3,
                4,
                if f.name@.len() > 0 {
                    f.name@
                } else if x is Some {
                    x->Some_0
                } else {
                    "file"@
                },
            ))
        }),
        f.name@.len() > 0 ==> plan(seq![MessageComponent::File(f)], seq![x]) == seq![
            OutgoingSpec::Media(f.file@, 3, 4, f.name@),
        ],
{
    assert(chain.push(MessageComponent::File(f)).drop_last() =~= chain);
    assert(found.push(x).drop_last() =~= found);
    let c1 = seq![MessageComponent::File(f)];
    let f1 = seq![x];
    assert(c1.drop_last() =~= Seq::<MessageComponent>::empty());
    assert(f1.drop_last() =~= Seq::<Option<Seq<char>>>::empty());
    assert(plan_state(Seq::<MessageComponent>::empty(), Seq::<Option<Seq<char>>>::empty()) == (
    Seq::<OutgoingSpec>::empty(), Seq::<char>::empty()));
    assert(flush_text(Seq::<OutgoingSpec>::empty(), Seq::<char>::empty()) =~= Seq::<OutgoingSpec>::empty());
    assert(Seq::<OutgoingSpec>::empty().push(OutgoingSpec::Media(f.file@, 3, 4, f.name@)) =~= seq![
        OutgoingSpec::Media(f.file@, 3, 4, f.name@),
    ]);
}

/// How the QR login continues after a status poll.
#[derive(Debug)]
pub enum LoginStep {
    /// Logged in with this bot token.
    Confirmed(String),
    /// Login failed with this message.
    Failed(String),
    /// Not scanned yet; poll again.
    Wait,
}

/// The adapter's state: its identity, its login token, what it has seen and the
/// tokens and messages it needs to answer.
pub struct WeixinOCAdapter {
    pub meta: PlatformMetadata,
    pub token: Option<String>,
    pub base_url: String,
    pub cdn_base_url: String,
    pub seen_message_ids: Vec<String>,
    pub cached_messages: RecentMessageCache,
    pub context_tokens: Vec<(String, String)>,
    pub sync_buf_path: String,
    pub sync_buf: String,
}

/// The file the sync cursor of adapter `id` is kept in.
pub open spec fn sync_buf_path_spec(id: Seq<char>) -> Seq<char> {
    "data/weixin_oc_sync_buf_"@ + id + ".dat"@
}

/// The file the sync cursor of adapter `id` is kept in.
pub fn sync_buf_path_for(id: &str) -> (r: String)
    ensures
        r@ == sync_buf_path_spec(id@),
{
    let mut p = string_from("data/weixin_oc_sync_buf_");
    push_str(&mut p, id);
    push_str(&mut p, ".dat");
    p
}

fn join_texts(parts: &Vec<String>) -> (r: String)
    ensures
        r@ == join_space(Seq::new(parts@.len(), |i: int| parts@[i]@)),
{
    let ghost ps = Seq::new(parts@.len(), |i: int| parts@[i]@);
    let mut out = String::new();
    let mut i: usize = 0;
    while i < parts.len()
        invariant
            i <= parts@.len(),
            ps == Seq::new(parts@.len(), |i: int| parts@[i]@),
            out@ == join_space(ps.take(i as int)),
        decreases parts.len() - i,
    {
        assert(ps.take(i + 1).drop_last() =~= ps.take(i as int));
        if i > 0 {
            push_str(&mut out, " ");
        }
        push_str(&mut out, parts[i].as_str());
        proof {
            reveal_strlit(" ");
            if i == 0 {
                assert(out@ =~= ps.take(1)[0]);
            }
        }
        i = i + 1;
    }
    assert(ps.take(parts@.len() as int) =~= ps);
    out
}

/// What reading synced messages changes: the seen ids, the context tokens, and the
/// cached sessions.
pub type SyncView = (Seq<Seq<char>>, AssocView, Seq<SessionView>);

/// Reading message `msg` under id `id` at `now` in state `st`: the next state, and
/// the text the message is delivered with (`None` for a repeat or a message
/// without an item list).
pub open spec fn sync_step(
    st: SyncView,
    msg: Json,
    id: Seq<char>,
    now: i64,
    max_cache: nat,
    max_sessions: nat,
) -> (SyncView, Option<Seq<char>>) {
    if st.0.contains(id) {
        (st, None)
    } else {
        let seen = seen_after(st.0, id);
        let tokens = tokens_after(st.1, msg);
        match msg.get("item_list"@) {
            Some(Json::Array(items)) => {
                let text = join_space(item_texts(items));
                let key = sync_session_key(msg);
                let ctx = cached_text(st.2, key, sync_ref_id(msg));
                let cache = if text.len() > 0 {
                    prune(
                        upsert(
                            st.2,
                            key,
                            CachedView { message_id: id, sender_id: sync_from_user(msg), text: text, timestamp: now },
                            max_cache,
                        ),
                        max_sessions,
                    )
                } else {
                    st.2
                };
                ((seen, tokens, cache), Some(with_reply_context(ctx, text)))
            },
            _ => ((seen, tokens, st.2), None),
        }
    }
}

/// Reading the messages `msgs` in order, the `j`-th under id `ids[j]` at `nows[j]`:
/// the final state, and for each delivered message its index in `msgs` and its
/// text.
pub open spec fn sync_fold(
    st: SyncView,
    msgs: Seq<Json>,
    ids: Seq<Seq<char>>,
    nows: Seq<i64>,
    max_cache: nat,
    max_sessions: nat,
) -> (SyncView, Seq<(int, Seq<char>)>)
    decreases msgs.len(),
{
    if msgs.len() == 0 {
        (st, Seq::empty())
    } else {
        let n = msgs.len() - 1;
        let prev = sync_fold(st, msgs.drop_last(), ids.drop_last(), nows.drop_last(), max_cache, max_sessions);
        let next = sync_step(prev.0, msgs[n], ids[n], nows[n], max_cache, max_sessions);
        (
            next.0,
            match next.1 {
                Some(t) => prev.1.push((n, t)),
                None => prev.1,
            },
        )
    }
}

/// The id a synced message is read under: its own text id, else a fresh UUID
/// (see `new_uuid_string`).
pub open spec fn sync_id_fits(msg: Json, id: Seq<char>) -> bool {
    match sync_msg_id(msg) {
        Some(x) => id == x,
        None => id.len() == 36 && fresh_uuid_text(id),
    }
}

/// `out` are the delivered messages `d` (index into `msgs` below `bound`, text) as
/// adapter `self_id` gives them, each read under `ids[j]` at `nows[j]`.
pub open spec fn delivered(
    out: Seq<AstrBotMessage>,
    self_id: Seq<char>,
    msgs: Seq<Json>,
    ids: Seq<Seq<char>>,
    nows: Seq<i64>,
    d: Seq<(int, Seq<char>)>,
    bound: int,
) -> bool {
    &&& out.len() == d.len()
    &&& forall|i: int| 0 <= i < out.len() ==> {
        &&& 0 <= #[trigger] d[i].0 < bound
        &&& synced_message(out[i], self_id, msgs[d[i].0], ids[d[i].0], d[i].1, nows[d[i].0])
    }
}

/// Reading the sync response `data` in state `v0` by adapter `self_id` (queues of
/// `mc` messages, `ms` sessions) ends in state `v1` and delivers `r`: the messages
/// of its `msgs` array, in order, each under its own id (or a fresh one) at the time
/// it was read; without such an array nothing changes and nothing is delivered.
pub open spec fn sync_read(
    v0: SyncView,
    self_id: Seq<char>,
    mc: nat,
    ms: nat,
    data: Json,
    v1: SyncView,
    r: Seq<AstrBotMessage>,
) -> bool {
    match data.get("msgs"@) {
        Some(Json::Array(msgs)) => exists|ids: Seq<Seq<char>>, nows: Seq<i64>| {
            let f = #[trigger] sync_fold(v0, msgs, ids, nows, mc, ms);
            &&& ids.len() == msgs.len()
            &&& nows.len() == msgs.len()
            &&& forall|j: int| 0 <= j < msgs.len() ==> sync_id_fits(msgs[j], #[trigger] ids[j])
            &&& v1 == f.0
            &&& delivered(r, self_id, msgs, ids, nows, f.1, msgs.len() as int)
        },
        _ => r.len() == 0 && v1 == v0,
    }
}

impl WeixinOCAdapter {
    /// The ids of seen messages.
    pub open spec fn seen_view(&self) -> Seq<Seq<char>> {
        Seq::new(self.seen_message_ids@.len(), |i: int| self.seen_message_ids@[i]@)
    }

    /// The context tokens per user.
    pub open spec fn tokens_view(&self) -> AssocView {
        assoc_view(self.context_tokens@)
    }

    /// What reading synced messages changes.
    pub open spec fn sync_view(&self) -> SyncView {
        (self.seen_view(), self.tokens_view(), self.cached_messages.view_sessions())
    }

    /// A fresh adapter for platform `id`, resuming from the sync cursor
    /// `initial_sync_buf`.
    pub fn new(
        id: &str,
        base_url: &str,
        cdn_base_url: &str,
        token: Option<String>,
        initial_sync_buf: String,
    ) -> (r: WeixinOCAdapter)
        ensures
            r.meta.id@ == id@,
            r.meta.name@ == "weixin_oc"@,
            r.meta.display_name@ == "个人微信"@,
            r.token == token,
            r.base_url@ == base_url@,
            r.cdn_base_url@ == cdn_base_url@,
            r.seen_message_ids@.len() == 0,
            r.cached_messages.sessions@.len() == 0,
            r.cached_messages.max_cache_size == 100,
            r.cached_messages.max_sessions == 500,
            r.cached_messages.wf(),
            r.context_tokens@.len() == 0,
            r.sync_buf_path@ == sync_buf_path_spec(id@),
            r.sync_buf == initial_sync_buf,
    {
        WeixinOCAdapter {
            meta: PlatformMetadata::new(id, "weixin_oc", "个人微信"),
            token,
            base_url: string_from(base_url),
            cdn_base_url: string_from(cdn_base_url),
            seen_message_ids: Vec::new(),
            cached_messages: RecentMessageCache::new(100, 500),
            context_tokens: Vec::new(),
            sync_buf_path: sync_buf_path_for(id),
            sync_buf: initial_sync_buf,
        }
    }

    /// The kind and display text of one item of a synced message.
    pub fn parse_message_item(item: &JsonValue) -> (r: Option<(String, String)>)
        ensures
            match r {
                Some(e) => item_entry(item@) == Some((e.0@, e.1@)),
                None => item_entry(item@) is None,
            },
    {
        let t: i64 = match item.get("type") {
            Some(v) => match v.as_i64() {
                Some(n) => n,
                None => 0,
            },
            None => 0,
        };
        if t == 1 {
            let text = match item.get("text_item") {
                Some(ti) => ti.get_str("text"),
                None => None,
            };
            let text = match text {
                Some(s) => s,
                None => String::new(),
            };
            Some((string_from("text"), text))
        } else if t == 2 {
            Some((string_from("image"), string_from("[图片]")))
        } else if t == 3 {
            let text = match item.get("voice_item") {
                Some(vi) => vi.get_str("text"),
                None => None,
            };
            let text = match text {
                Some(s) => s,
                None => string_from("[语音]"),
            };
            Some((string_from("voice"), text))
        } else if t == 4 {
            Some((string_from("file"), string_from("[文件]")))
        } else if t == 5 {
            Some((string_from("video"), string_from("[视频]")))
        } else {
            None
        }
    }

    fn has_seen(&self, id: &str) -> (r: bool)
        ensures
            r == self.seen_view().contains(id@),
    {
        let mut i: usize = 0;
        while i < self.seen_message_ids.len()
            invariant
                i <= self.seen_message_ids@.len(),
                forall|k: int| 0 <= k < i ==> self.seen_message_ids@[k]@ != id@,
            decreases self.seen_message_ids.len() - i,
        {
            if str_eq(self.seen_message_ids[i].as_str(), id) {
                assert(self.seen_view()[i as int] == id@);
                return true;
            }
            i = i + 1;
        }
        false
    }

    fn record_seen(&mut self, id: &str)
        ensures
            final(self).seen_view() == seen_after(old(self).seen_view(), id@),
            final(self).meta == old(self).meta,
            final(self).base_url == old(self).base_url,
            final(self).cdn_base_url == old(self).cdn_base_url,
            final(self).sync_buf_path == old(self).sync_buf_path,
            final(self).token == old(self).token,
            final(self).cached_messages == old(self).cached_messages,
            final(self).context_tokens == old(self).context_tokens,
            final(self).sync_buf == old(self).sync_buf,
    {
        let ghost s0 = self.seen_view();
        self.seen_message_ids.push(string_from(id));
        assert(self.seen_view() =~= s0.push(id@));
        if self.seen_message_ids.len() > 10000 {
            let ghost s1 = self.seen_view();
            let half: usize = self.seen_message_ids.len() / 2;
            let kept = self.seen_message_ids.split_off(half);
            self.seen_message_ids = kept;
            assert(self.seen_view() =~= s1.skip(half as int));
        }
    }

    /// Reads one synced message whose server id is `server_msg_id`, received at time
    /// `now`: drops repeats, remembers the sender's context token and the message
    /// text, and gives the message as the bot sees it (`None` for a repeat or a
    /// message without items).
    pub fn process_sync_message(&mut self, msg: &JsonValue, server_msg_id: &str, now: i64) -> (r: Option<AstrBotMessage>)
        ensures
            final(self).meta == old(self).meta,
            final(self).base_url == old(self).base_url,
            final(self).cdn_base_url == old(self).cdn_base_url,
            final(self).sync_buf_path == old(self).sync_buf_path,
            final(self).token == old(self).token,
            final(self).sync_buf == old(self).sync_buf,
            final(self).cached_messages.max_cache_size == old(self).cached_messages.max_cache_size,
            final(self).cached_messages.max_sessions == old(self).cached_messages.max_sessions,
            old(self).cached_messages.wf() ==> final(self).cached_messages.wf(),
            old(self).seen_view().contains(server_msg_id@) ==> {
                &&& r is None
                &&& final(self).seen_view() == old(self).seen_view()
                &&& final(self).tokens_view() == old(self).tokens_view()
                &&& final(self).cached_messages.view_sessions() == old(self).cached_messages.view_sessions()
            },
            !old(self).seen_view().contains(server_msg_id@) ==> {
                &&& final(self).seen_view() == seen_after(old(self).seen_view(), server_msg_id@)
                &&& final(self).tokens_view() == tokens_after(old(self).tokens_view(), msg@)
                &&& match msg@.get("item_list"@) {
                    Some(Json::Array(items)) => {
                        let text = join_space(item_texts(items));
                        let key = sync_session_key(msg@);
                        let ctx = cached_text(old(self).cached_messages.view_sessions(), key, sync_ref_id(msg@));
                        &&& final(self).cached_messages.view_sessions() == if text.len() > 0 {
                            prune(
                                upsert(
                                    old(self).cached_messages.view_sessions(),
                                    key,
                                    CachedView {
                                        message_id: server_msg_id@,
                                        sender_id: sync_from_user(msg@),
                                        text: text,
                                        timestamp: now,
                                    },
                                    old(self).cached_messages.max_cache_size as nat,
                                ),
                                old(self).cached_messages.max_sessions as nat,
                            )
                        } else {
                            old(self).cached_messages.view_sessions()
                        }
                        &&& r matches Some(m) && synced_message(m, old(self).meta.id@, msg@, server_msg_id@,
                            with_reply_context(ctx, text), now)
                    },
                    _ => r is None && final(self).cached_messages.view_sessions()
                        == old(self).cached_messages.view_sessions(),
                }
            },
    {
        if self.has_seen(server_msg_id) {
            return None;
        }
        self.record_seen(server_msg_id);
        let from_user = match msg.get_str("from_user_id") {
            Some(s) => s,
            None => String::new(),
        };
        let from_nickname = match msg.get_str("from_nickname") {
            Some(s) => s,
            None => String::new(),
        };
        let ghost tokens0 = self.tokens_view();
        match msg.get_str("context_token") {
            Some(tok) => {
                if tok.as_str().is_empty() == false && from_user.as_str().is_empty() == false {
                    assoc_insert(&mut self.context_tokens, from_user.clone(), tok);
                }
            },
            None => {},
        }
        assert(self.tokens_view() == tokens_after(tokens0, msg@));
        let group_field = match msg.get("from_group_id") {
            Some(v) => Some(v),
            None => msg.get("group_id"),
        };
        let group_id: Option<String> = match group_field {
            Some(v) => match v.as_str() {
                Some(s) => if s.as_str().is_empty() {
                    None
                } else {
                    Some(s)
                },
                None => None,
            },
            None => None,
        };
        let ref_field: Option<String> = match msg.get("ref_msg") {
            Some(v) => match v.as_str() {
                Some(s) => Some(s),
                None => v.get_str("msg_id"),
            },
            None => None,
        };
        let ref_msg_id: Option<String> = match ref_field {
            Some(s) => if s.as_str().is_empty() {
                None
            } else {
                Some(s)
            },
            None => None,
        };
        assert(group_id matches Some(g) ==> sync_group_id(msg@) == Some(g@));
        assert(group_id is None ==> sync_group_id(msg@) is None);
        assert(ref_msg_id matches Some(g) ==> sync_ref_id(msg@) == Some(g@));
        assert(ref_msg_id is None ==> sync_ref_id(msg@) is None);
        let item_val = match msg.get("item_list") {
            Some(v) => v,
            None => {
                return None;
            },
        };
        let items = match item_val {
            JsonValue::Array(items) => items,
            _ => {
                return None;
            },
        };
        let ghost spec_items = Seq::new(items@.len(), |i: int| items@[i]@);
        assert(item_val@->Array_0 =~= spec_items);
        assert(msg@.get("item_list"@) == Some(Json::Array(spec_items)));
        let mut parts: Vec<String> = Vec::new();
        let mut k: usize = 0;
        while k < items.len()
            invariant
                k <= items@.len(),
                spec_items == Seq::new(items@.len(), |i: int| items@[i]@),
                Seq::new(parts@.len(), |i: int| parts@[i]@) == item_texts(spec_items.take(k as int)),
            decreases items.len() - k,
        {
            assert(spec_items.take(k + 1).drop_last() =~= spec_items.take(k as int));
            let ghost before = parts@;
            match Self::parse_message_item(&items[k]) {
                Some(entry) => {
                    parts.push(entry.1);
                    assert(Seq::new(parts@.len(), |i: int| parts@[i]@) =~= Seq::new(
                        before.len(),
                        |i: int| before[i]@,
                    ).push(parts@[before.len() as int]@));
                },
                None => {},
            }
            k = k + 1;
        }
        assert(spec_items.take(items@.len() as int) =~= spec_items);
        let combined = join_texts(&parts);
        let session_key: String = match &group_id {
            Some(g) => g.clone(),
            None => from_user.clone(),
        };
        let reply_context: Option<String> = match &ref_msg_id {
            Some(rid) => match self.cached_messages.find_reply(session_key.as_str(), rid.as_str()) {
                Some(m) => Some(m.text.clone()),
                None => None,
            },
            None => None,
        };
        if !combined.as_str().is_empty() {
            self.cached_messages.add(
                session_key.clone(),
                CachedMessage {
                    message_id: string_from(server_msg_id),
                    sender_id: from_user.clone(),
                    text: combined.clone(),
                    timestamp: now,
                },
            );
        }
        let message_type = if group_id.is_some() {
            MessageType::GroupMessage
        } else {
            MessageType::FriendMessage
        };
        let final_text: String = match reply_context {
            Some(ctx) => {
                let mut t = string_from("[回复: ");
                push_str(&mut t, ctx.as_str());
                push_str(&mut t, "] ");
                push_str(&mut t, combined.as_str());
                t
            },
            None => combined,
        };
        let mut bot_msg = AstrBotMessage::new_at(
            message_type,
            self.meta.id.as_str(),
            session_key.as_str(),
            server_msg_id,
            MessageMember::new(from_user.as_str()),
            final_text.as_str(),
            now,
        );
        bot_msg.sender.nickname = Some(from_nickname);
        match group_id {
            Some(gid) => {
                bot_msg.group = Some(Group::new(gid.as_str()));
            },
            None => {},
        }
        Some(bot_msg)
    }
}

impl WeixinOCAdapter {
    /// Reads every message of a sync response, in order, giving those that are new
    /// and carry items. A message without a text id gets a fresh random id (see
    /// `new_uuid_string`); each is stamped with the time it is read.
    #[verifier::spinoff_prover]
    pub fn parse_sync_response(&mut self, data: &JsonValue) -> (r: Vec<AstrBotMessage>)
        ensures
            final(self).meta == old(self).meta,
            final(self).base_url == old(self).base_url,
            final(self).cdn_base_url == old(self).cdn_base_url,
            final(self).sync_buf_path == old(self).sync_buf_path,
            final(self).token == old(self).token,
            final(self).sync_buf == old(self).sync_buf,
            final(self).cached_messages.max_cache_size == old(self).cached_messages.max_cache_size,
            final(self).cached_messages.max_sessions == old(self).cached_messages.max_sessions,
            old(self).cached_messages.wf() ==> final(self).cached_messages.wf(),
            match data@.get("msgs"@) {
                Some(Json::Array(msgs)) => {
                    &&& r@.len() <= msgs.len()
                    &&& forall|i: int| 0 <= i < r@.len() ==> (#[trigger] r@[i]).self_id@ == old(self).meta.id@
                    &&& old(self).seen_view().len() + msgs.len() <= 10000 ==> {
                        &&& forall|i: int| 0 <= i < r@.len() ==> !old(self).seen_view().contains(#[trigger] r@[i].message_id@)
                        &&& forall|i: int, j: int| 0 <= i < j < r@.len() ==> #[trigger] r@[i].message_id@ != #[trigger] r@[j].message_id@
                    }
                },
                _ => true,
            },
            sync_read(
                old(self).sync_view(),
                old(self).meta.id@,
                old(self).cached_messages.max_cache_size as nat,
                old(self).cached_messages.max_sessions as nat,
                data@,
                final(self).sync_view(),
                r@,
            ),
    {
        let mut out: Vec<AstrBotMessage> = Vec::new();
        let list_val = match data.get("msgs") {
            Some(v) => v,
            None => {
                return out;
            },
        };
        let list = match list_val {
            JsonValue::Array(l) => l,
            _ => {
                return out;
            },
        };
        let ghost spec_list = Seq::new(list@.len(), |i: int| list@[i]@);
        assert(list_val@->Array_0 =~= spec_list);
        let ghost seen0 = self.seen_view();
        let ghost v0 = self.sync_view();
        let ghost mc = self.cached_messages.max_cache_size as nat;
        let ghost ms = self.cached_messages.max_sessions as nat;
        let ghost mut ids: Seq<Seq<char>> = Seq::empty();
        let ghost mut nows: Seq<i64> = Seq::empty();
        assert(spec_list.take(0) =~= Seq::<Json>::empty());
        let mut k: usize = 0;
        while k < list.len()
            invariant
                k <= list@.len(),
                out@.len() <= k,
                self.meta == old(self).meta,
                self.base_url == old(self).base_url,
                self.cdn_base_url == old(self).cdn_base_url,
                self.sync_buf_path == old(self).sync_buf_path,
                self.token == old(self).token,
                self.sync_buf == old(self).sync_buf,
                seen0 == old(self).seen_view(),
                self.cached_messages.max_cache_size == old(self).cached_messages.max_cache_size,
                self.cached_messages.max_sessions == old(self).cached_messages.max_sessions,
                old(self).cached_messages.wf() ==> self.cached_messages.wf(),
                forall|i: int| 0 <= i < out@.len() ==> (#[trigger] out@[i]).self_id@ == old(self).meta.id@,
                spec_list == Seq::new(list@.len(), |i: int| list@[i]@),
                ids.len() == k,
                nows.len() == k,
                forall|j: int| 0 <= j < k ==> sync_id_fits(spec_list[j], #[trigger] ids[j]),
                self.sync_view() == sync_fold(v0, spec_list.take(k as int), ids, nows, mc, ms).0,
                delivered(out@, old(self).meta.id@, spec_list, ids, nows,
                    sync_fold(v0, spec_list.take(k as int), ids, nows, mc, ms).1, k as int),
                mc == old(self).cached_messages.max_cache_size as nat,
                ms == old(self).cached_messages.max_sessions as nat,
                v0 == old(self).sync_view(),
                seen0.len() + list@.len() <= 10000 ==> {
                    &&& self.seen_view().len() <= seen0.len() + k
                    &&& forall|t: int| 0 <= t < seen0.len() ==> self.seen_view()[t] == seen0[t]
                    &&& self.seen_view().len() >= seen0.len()
                    &&& forall|i: int| 0 <= i < out@.len() ==> self.seen_view().contains(#[trigger] out@[i].message_id@)
                    &&& forall|i: int| 0 <= i < out@.len() ==> !seen0.contains(#[trigger] out@[i].message_id@)
                    &&& forall|i: int, j: int| 0 <= i < j < out@.len() ==> #[trigger] out@[i].message_id@ != #[trigger] out@[j].message_id@
                },
            decreases list.len() - k,
        {
            let msg = &list[k];
            let id_field = match msg.get("msg_id") {
                Some(v) => Some(v),
                None => msg.get("message_id"),
            };
            let id_text = match id_field {
                Some(v) => v.as_str(),
                None => None,
            };
            let server_msg_id = match id_text {
                Some(s) => s,
                None => new_uuid_string(),
            };
            assert(sync_id_fits(msg@, server_msg_id@));
            let now = unix_now();
            let ghost seen_before = self.seen_view();
            let ghost out_before = out@;
            let ghost view_before = self.sync_view();
            let ghost fold_before = sync_fold(v0, spec_list.take(k as int), ids, nows, mc, ms);
            let ghost ids_before = ids;
            let ghost nows_before = nows;
            proof {
                assert(msg@ == spec_list[k as int]);
                ids = ids.push(server_msg_id@);
                nows = nows.push(now);
                assert(spec_list.take(k + 1).drop_last() =~= spec_list.take(k as int));
                assert(ids.drop_last() =~= ids_before);
                assert(nows.drop_last() =~= nows_before);
                assert(spec_list.take(k + 1)[k as int] == spec_list[k as int]);
            }
            let res = self.process_sync_message(msg, server_msg_id.as_str(), now);
            proof {
                if seen0.len() + list@.len() <= 10000 {
                    if !seen_before.contains(server_msg_id@) {
                        assert(self.seen_view() =~= seen_before.push(server_msg_id@));
                    }
                    assert forall|i: int| 0 <= i < out_before.len() implies self.seen_view().contains(#[trigger] out_before[i].message_id@) by {
                        let j = choose|j: int| 0 <= j < seen_before.len() && seen_before[j] == out_before[i].message_id@;
                        assert(self.seen_view()[j] == out_before[i].message_id@);
                    }
                }
            }
            match res {
                Some(m) => {
                    out.push(m);
                    proof {
                        if seen0.len() + list@.len() <= 10000 {
                            assert(!seen_before.contains(server_msg_id@));
                            assert forall|i: int| 0 <= i < out@.len() implies self.seen_view().contains(#[trigger] out@[i].message_id@) by {
                                if i < out_before.len() {
                                    assert(out@[i] == out_before[i]);
                                } else {
                                    assert(self.seen_view()[seen_before.len() as int] == server_msg_id@);
                                }
                            }
                            assert forall|i: int| 0 <= i < out@.len() implies !seen0.contains(#[trigger] out@[i].message_id@) by {
                                if i == out_before.len() {
                                    if seen0.contains(server_msg_id@) {
                                        let j = choose|j: int| 0 <= j < seen0.len() && seen0[j] == server_msg_id@;
                                        assert(seen_before[j] == server_msg_id@);
                                    }
                                } else {
                                    assert(out@[i] == out_before[i]);
                                }
                            }
                            assert forall|i: int, j: int| 0 <= i < j < out@.len() implies #[trigger] out@[i].message_id@ != #[trigger] out@[j].message_id@ by {
                                if j == out_before.len() {
                                    assert(out@[i] == out_before[i]);
                                    assert(seen_before.contains(out_before[i].message_id@));
                                } else {
                                    assert(out@[i] == out_before[i]);
                                    assert(out@[j] == out_before[j]);
                                }
                            }
                        }
                    }
                },
                None => {},
            }
            proof {
                let f1 = sync_fold(v0, spec_list.take(k + 1), ids, nows, mc, ms);
                let st = sync_step(fold_before.0, spec_list[k as int], ids[k as int], nows[k as int], mc, ms);
                assert(fold_before == sync_fold(v0, spec_list.take(k + 1).drop_last(), ids.drop_last(), nows.drop_last(), mc, ms));
                assert(ids[k as int] == server_msg_id@);
                assert(nows[k as int] == now);
                assert(f1.0 == st.0);
                assert(self.sync_view() == st.0);
                assert(f1.1 == match st.1 {
                    Some(t) => fold_before.1.push((k as int, t)),
                    None => fold_before.1,
                });
                assert forall|i: int| 0 <= i < out@.len() implies {
                    &&& 0 <= #[trigger] f1.1[i].0 < k + 1
                    &&& synced_message(out@[i], old(self).meta.id@, spec_list[f1.1[i].0], ids[f1.1[i].0], f1.1[i].1, nows[f1.1[i].0])
                } by {
                    if i < out_before.len() {
                        assert(out@[i] == out_before[i]);
                        assert(f1.1[i] == fold_before.1[i]);
                        assert(0 <= fold_before.1[i].0 < k);
                        assert(ids[fold_before.1[i].0] == ids_before[fold_before.1[i].0]);
                        assert(nows[fold_before.1[i].0] == nows_before[fold_before.1[i].0]);
                    } else {
                        assert(st.1 is Some);
                        assert(f1.1[i] == (k as int, st.1->0));
                    }
                }
                assert(delivered(out@, old(self).meta.id@, spec_list, ids, nows, f1.1, k + 1));
                assert forall|j: int| 0 <= j < k + 1 implies sync_id_fits(spec_list[j], #[trigger] ids[j]) by {
                    if j < k {
                        assert(ids[j] == ids_before[j]);
                    }
                }
            }
            k = k + 1;
        }
        proof {
            assert(spec_list.take(list@.len() as int) =~= spec_list);
            assert(data@.get("msgs"@) == Some(Json::Array(spec_list)));
            assert(spec_list.take(k as int) == spec_list);
            let f = sync_fold(v0, spec_list, ids, nows, mc, ms);
            assert(self.sync_view() == f.0);
            assert(delivered(out@, old(self).meta.id@, spec_list, ids, nows, f.1, spec_list.len() as int));
        }
        out
    }

    /// Handles a sync response: a session timeout (`errcode` -14) ends the sync;
    /// otherwise the new sync cursor, if the response has one, replaces the old one
    /// and is given back together with the new messages.
    pub fn handle_sync_response(&mut self, data: &JsonValue) -> (r: Result<(Option<String>, Vec<AstrBotMessage>), String>)
        ensures
            final(self).meta == old(self).meta,
            final(self).base_url == old(self).base_url,
            final(self).cdn_base_url == old(self).cdn_base_url,
            final(self).sync_buf_path == old(self).sync_buf_path,
            final(self).token == old(self).token,
            old(self).cached_messages.wf() ==> final(self).cached_messages.wf(),
            (match data@.get("errcode"@) {
                Some(v) => v.as_i64() == Some(-14i64),
                None => false,
            }) ==> ((r matches Err(e) && e@ == "session timeout"@) && final(self).sync_buf == old(self).sync_buf
                && final(self).sync_view() == old(self).sync_view()),
            r matches Ok((buf, msgs)) ==> {
                &&& match data@.get_str("get_updates_buf"@) {
                    Some(b) => (buf matches Some(bs) && bs@ == b) && final(self).sync_buf@ == b,
                    None => buf is None && final(self).sync_buf == old(self).sync_buf,
                }
                &&& sync_read(
                    old(self).sync_view(),
                    old(self).meta.id@,
                    old(self).cached_messages.max_cache_size as nat,
                    old(self).cached_messages.max_sessions as nat,
                    data@,
                    final(self).sync_view(),
                    msgs@,
                )
            },
            !(match data@.get("errcode"@) {
                Some(v) => v.as_i64() == Some(-14i64),
                None => false,
            }) ==> r is Ok,
    {
        let errcode: i64 = match data.get("errcode") {
            Some(v) => match v.as_i64() {
                Some(n) => n,
                None => 0,
            },
            None => 0,
        };
        if errcode == -14 {
            return Err(string_from("session timeout"));
        }
        let new_buf = data.get_str("get_updates_buf");
        match &new_buf {
            Some(b) => {
                self.sync_buf = b.clone();
            },
            None => {},
        }
        let buf_now = self.sync_buf.clone();
        let messages = self.parse_sync_response(data);
        assert(self.sync_buf == buf_now);
        Ok((new_buf, messages))
    }

    /// The body of a sync (`getupdates`) request resuming from the current cursor.
    pub fn sync_request_body(&self) -> (r: JsonValue)
        ensures
            r@ == Json::Object(
                seq![("base_info"@, base_info()), ("get_updates_buf"@, Json::Str(self.sync_buf@))],
            ),
    {
        let mut members: Vec<(String, JsonValue)> = Vec::new();
        members.push((string_from("base_info"), base_info_value()));
        members.push((string_from("get_updates_buf"), JsonValue::Str(self.sync_buf.clone())));
        let r = json_object(members);
        assert(members_view(members@) =~= seq![("base_info"@, base_info()), ("get_updates_buf"@, Json::Str(self.sync_buf@))]);
        r
    }

    /// The client for the API, carrying the current token and a two-minute timeout.
    pub fn client(&self) -> (r: WeixinOCClient)
        ensures
            r.base_url@ == self.base_url@,
            r.cdn_base_url@ == self.cdn_base_url@,
            r.api_timeout_ms == 120_000,
            r.token == self.token,
    {
        WeixinOCClient::new(self.base_url.as_str(), self.cdn_base_url.as_str(), 120_000, self.token.clone())
    }

    /// The QR code and its image URL from the `get_bot_qrcode` response.
    pub fn qr_login_start(resp: &JsonValue) -> (r: Result<(String, String), String>)
        ensures
            match (resp@.get_str("qrcode"@), resp@.get_str("qrcode_img_content"@)) {
                (Some(q), Some(u)) => (r matches Ok((a, b)) && a@ == q && b@ == u),
                (None, _) => (r matches Err(e) && e@ == "missing qrcode"@),
                (Some(_), None) => (r matches Err(e) && e@ == "missing qrcode_img_content"@),
            },
    {
        let qrcode = match resp.get_str("qrcode") {
            Some(q) => q,
            None => {
                return Err(string_from("missing qrcode"));
            },
        };
        let url = match resp.get_str("qrcode_img_content") {
            Some(u) => u,
            None => {
                return Err(string_from("missing qrcode_img_content"));
            },
        };
        Ok((qrcode, url))
    }

    /// Takes one `get_qrcode_status` response: `confirmed` logs in with the bot
    /// token it carries, `expired` fails, anything else (or no status) waits.
    pub fn login_status_step(&mut self, resp: &JsonValue) -> (r: LoginStep)
        ensures
            final(self).meta == old(self).meta,
            final(self).base_url == old(self).base_url,
            final(self).cdn_base_url == old(self).cdn_base_url,
            final(self).sync_buf_path == old(self).sync_buf_path,
            final(self).sync_buf == old(self).sync_buf,
            final(self).cached_messages == old(self).cached_messages,
            final(self).context_tokens == old(self).context_tokens,
            final(self).seen_message_ids == old(self).seen_message_ids,
            ({
                let status = or_default(resp@.get_str("status"@), "wait"@);
                if status == "confirmed"@ {
                    match resp@.get_str("bot_token"@) {
                        Some(t) => (r matches LoginStep::Confirmed(tok) && tok@ == t)
                            && (final(self).token matches Some(ft) && ft@ == t),
                        None => (r matches LoginStep::Failed(e) && e@ == "missing bot_token"@)
                            && final(self).token == old(self).token,
                    }
                } else if status == "expired"@ {
                    (r matches LoginStep::Failed(e) && e@ == "qr expired"@) && final(self).token == old(self).token
                } else {
                    r is Wait && final(self).token == old(self).token
                }
            }),
    {
        let status = match resp.get_str("status") {
            Some(s) => s,
            None => string_from("wait"),
        };
        if str_eq(status.as_str(), "confirmed") {
            match resp.get_str("bot_token") {
                Some(t) => {
                    self.token = Some(t.clone());
                    LoginStep::Confirmed(t)
                },
                None => LoginStep::Failed(string_from("missing bot_token")),
            }
        } else if str_eq(status.as_str(), "expired") {
            LoginStep::Failed(string_from("qr expired"))
        } else {
            LoginStep::Wait
        }
    }

    /// The context token last seen from `session_id`.
    pub fn context_token_for(&self, session_id: &str) -> (r: Option<String>)
        ensures
            match r {
                Some(t) => assoc_get(self.tokens_view(), session_id@) == Some(t@),
                None => assoc_get(self.tokens_view(), session_id@) is None,
            },
    {
        assoc_lookup(&self.context_tokens, session_id)
    }
}

/// `unwrap_or(d)`.
pub open spec fn or_default(o: Option<Seq<char>>, d: Seq<char>) -> Seq<char> {
    match o {
        Some(s) => s,
        None => d,
    }
}

/// What a sync error means: an error mentioning `-14` means the session expired
/// and ends the sync (with this message); any other error is retried.
pub fn sync_error_outcome(e: &str) -> (r: Option<String>)
    ensures
        contains(e@, "-14"@) ==> (r matches Some(m) && m@ == "session expired: "@ + e@),
        !contains(e@, "-14"@) ==> r is None,
{
    if str_contains(e, "-14") {
        let mut m = string_from("session expired: ");
        push_str(&mut m, e);
        Some(m)
    } else {
        None
    }
}

/// The ticket a typing-indicator request is made with: the `typing_ticket` string
/// of the typing configuration.
pub fn typing_ticket(config: &JsonValue) -> (r: Result<String, String>)
    ensures
        match config@.get_str("typing_ticket"@) {
            Some(t) => r matches Ok(s) && s@ == t,
            None => r matches Err(m) && m@ == "missing typing_ticket"@,
        },
{
    match config.get_str("typing_ticket") {
        Some(t) => Ok(t),
        None => Err(string_from("missing typing_ticket")),
    }
}

/// `{"channel_version": "astrbot"}`, sent with every request.
pub open spec fn base_info() -> Json {
    Json::Object(seq![("channel_version"@, Json::Str("astrbot"@))])
}

fn base_info_value() -> (r: JsonValue)
    ensures
        r@ == base_info(),
{
    let mut members: Vec<(String, JsonValue)> = Vec::new();
    members.push((string_from("channel_version"), JsonValue::Str(string_from("astrbot"))));
    assert(members_view(members@) =~= seq![("channel_version"@, Json::Str("astrbot"@))]);
    json_object(members)
}

fn flush_pending(items: &mut Vec<OutgoingItem>, pending: &mut String)
    ensures
        Seq::new(final(items)@.len(), |i: int| final(items)@[i].spec()) == flush_text(
            Seq::new(old(items)@.len(), |i: int| old(items)@[i].spec()),
            old(pending)@,
        ),
        final(pending)@ == Seq::<char>::empty(),
{
    let ghost before = Seq::new(items@.len(), |i: int| items@[i].spec());
    if !pending.as_str().is_empty() {
        let mut taken = String::new();
        std::mem::swap(&mut taken, pending);
        items.push(OutgoingItem::Text(taken));
        assert(Seq::new(items@.len(), |i: int| items@[i].spec()) =~= before.push(
            OutgoingSpec::Text(old(pending)@),
        ));
    } else {
        assert(Seq::new(items@.len(), |i: int| items@[i].spec()) =~= before);
    }
}

/// Breaks a message chain into the items it is sent as: consecutive plain texts
/// merged into one text item, images with a path, files and voice as media to
/// upload, and everything else left out.
pub fn plan_outgoing_items(message: &MessageChain) -> (r: Vec<OutgoingItem>)
    ensures
        exists|found: Seq<Option<Seq<char>>>| {
            &&& found.len() == message.chain@.len()
            &&& forall|j: int| 0 <= j < found.len() ==> name_fits(message.chain@[j], #[trigger] found[j])
            &&& Seq::new(r@.len(), |i: int| r@[i].spec()) == #[trigger] plan(message.chain@, found)
        },
{
    let mut items: Vec<OutgoingItem> = Vec::new();
    let mut pending = String::new();
    let ghost mut found: Seq<Option<Seq<char>>> = Seq::empty();
    let mut i: usize = 0;
    while i < message.chain.len()
        invariant
            i <= message.chain@.len(),
            found.len() == i,
            forall|j: int| 0 <= j < i ==> name_fits(message.chain@[j], #[trigger] found[j]),
            (Seq::new(items@.len(), |j: int| items@[j].spec()), pending@) == plan_state(
                message.chain@.take(i as int),
                found,
            ),
        decreases message.chain.len() - i,
    {
        assert(message.chain@.take(i + 1).drop_last() =~= message.chain@.take(i as int));
        assert(message.chain@.take(i + 1).last() == message.chain@[i as int]);
        let ghost before = Seq::new(items@.len(), |j: int| items@[j].spec());
        let ghost found_before = found;
        let ghost mut this_found: Option<Seq<char>> = None;
        match &message.chain[i] {
            MessageComponent::Plain(p) => {
                push_str(&mut pending, p.text.as_str());
            },
            MessageComponent::Image(img) => {
                match &img.path {
                    Some(path) => {
                        flush_pending(&mut items, &mut pending);
                        let ghost flushed = Seq::new(items@.len(), |j: int| items@[j].spec());
                        items.push(
                            OutgoingItem::Media {
                                path: path.clone(),
                                upload_media_type: 1,
                                item_type: 2,
                                file_name: String::new(),
                            },
                        );
                        assert(Seq::new(items@.len(), |j: int| items@[j].spec()) =~= flushed.push(
                            OutgoingSpec::Media(path@, 1, 2, Seq::empty()),
                        ));
                    },
                    None => {},
                }
            },
            MessageComponent::File(f) => {
                flush_pending(&mut items, &mut pending);
                let ghost flushed = Seq::new(items@.len(), |j: int| items@[j].spec());
                let name = if f.name.as_str().is_empty() {
                    match file_name_of(f.file.as_str()) {
                        Some(n) => {
                            proof {
                                this_found = Some(n@);
                            }
                            n
                        },
                        None => string_from("file"),
                    }
                } else {
                    f.name.clone()
                };
                items.push(
                    OutgoingItem::Media {
                        path: f.file.clone(),
                        upload_media_type: 3,
                        item_type: 4,
                        file_name: name,
                    },
                );
                assert(Seq::new(items@.len(), |j: int| items@[j].spec()) =~= flushed.push(
                    OutgoingSpec::Media(f.file@, 3, 4, outgoing_file_name(*f, this_found)),
                ));
            },
            MessageComponent::Record(rec) => {
                flush_pending(&mut items, &mut pending);
                let ghost flushed = Seq::new(items@.len(), |j: int| items@[j].spec());
                items.push(
                    OutgoingItem::Media {
                        path: rec.file.clone(),
                        upload_media_type: 1,
                        item_type: 3,
                        file_name: String::new(),
                    },
                );
                assert(Seq::new(items@.len(), |j: int| items@[j].spec()) =~= flushed.push(
                    OutgoingSpec::Media(rec.file@, 1, 3, Seq::empty()),
                ));
            },
            _ => {},
        }
        proof {
            found = found.push(this_found);
            assert(found.drop_last() =~= found_before);
            assert forall|j: int| 0 <= j < i + 1 implies name_fits(message.chain@[j], #[trigger] found[j]) by {
                if j < i {
                    assert(found[j] == found_before[j]);
                }
            }
        }
        i = i + 1;
    }
    assert(message.chain@.take(message.chain@.len() as int) =~= message.chain@);
    flush_pending(&mut items, &mut pending);
    assert(Seq::new(items@.len(), |j: int| items@[j].spec()) == plan(message.chain@, found));
    items
}

/// `{"type": 1, "text_item": {"text": text}}`.
pub open spec fn text_item_spec(text: Seq<char>) -> Json {
    Json::Object(seq![("type"@, Json::Int(1)), ("text_item"@, Json::Object(seq![("text"@, Json::Str(text))]))])
}

/// A text item of an outgoing message.
pub fn text_item(text: &str) -> (r: JsonValue)
    ensures
        r@ == text_item_spec(text@),
{
    let mut inner: Vec<(String, JsonValue)> = Vec::new();
    inner.push((string_from("text"), JsonValue::string(text)));
    assert(members_view(inner@) =~= seq![("text"@, Json::Str(text@))]);
    let inner = json_object(inner);
    let mut outer: Vec<(String, JsonValue)> = Vec::new();
    outer.push((string_from("type"), JsonValue::Int(1)));
    outer.push((string_from("text_item"), inner));
    assert(members_view(outer@) =~= seq![("type"@, Json::Int(1)), ("text_item"@, Json::Object(seq![("text"@, Json::Str(text@))]))]);
    json_object(outer)
}

/// The MD5 digest of `data` (16 bytes).
pub uninterp spec fn md5_digest(data: Seq<u8>) -> Seq<u8>;

/// Calls `md5::compute` and formats the digest with `{:x}`: the result is the
/// lower-case hex text of the named 16-byte digest.
#[verifier::external_body]
fn md5_hex(data: &[u8]) -> (r: String)
    ensures
        r@ == hex_encoded(md5_digest(data@)),
        r@.len() == 32,
{
    format!("{:x}", md5::compute(data))
}

/// The body of a `getuploadurl` request for uploading `data` to `to_user_id`.
pub open spec fn upload_request_spec(
    to_user_id: Seq<char>,
    data: Seq<u8>,
    upload_media_type: i64,
    file_key: Seq<char>,
    aes_key_hex: Seq<char>,
) -> Json {
    Json::Object(
        seq![
            ("filekey"@, Json::Str(file_key)),
            ("media_type"@, Json::Int(upload_media_type)),
            ("to_user_id"@, Json::Str(to_user_id)),
            ("rawsize"@, Json::Int(data.len() as i64)),
            ("rawfilemd5"@, Json::Str(hex_encoded(md5_digest(data)))),
            ("filesize"@, Json::Int((data.len() + (16 - data.len() % 16)) as i64)),
            ("no_need_thumb"@, Json::Bool(true)),
            ("aeskey"@, Json::Str(aes_key_hex)),
            ("base_info"@, base_info()),
        ],
    )
}

/// The body of a `getuploadurl` request: sizes of the plain and encrypted file, the
/// plain file's MD5, and the key it is encrypted with.
pub fn upload_request(
    to_user_id: &str,
    data: &[u8],
    upload_media_type: i64,
    file_key: &str,
    aes_key_hex: &str,
) -> (r: JsonValue)
    requires
        data@.len() + 16 <= i64::MAX,
        data@.len() + 16 <= usize::MAX,
    ensures
        r@ == upload_request_spec(to_user_id@, data@, upload_media_type, file_key@, aes_key_hex@),
{
    let raw_size: usize = data.len();
    let md5 = md5_hex(data);
    let cipher_size = crate::platform::sources::weixin_oc::crypto::aes_padded_size(raw_size);
    let mut m: Vec<(String, JsonValue)> = Vec::new();
    m.push((string_from("filekey"), JsonValue::string(file_key)));
    m.push((string_from("media_type"), JsonValue::Int(upload_media_type)));
    m.push((string_from("to_user_id"), JsonValue::string(to_user_id)));
    m.push((string_from("rawsize"), JsonValue::Int(raw_size as i64)));
    m.push((string_from("rawfilemd5"), JsonValue::Str(md5)));
    m.push((string_from("filesize"), JsonValue::Int(cipher_size as i64)));
    m.push((string_from("no_need_thumb"), JsonValue::Bool(true)));
    m.push((string_from("aeskey"), JsonValue::string(aes_key_hex)));
    m.push((string_from("base_info"), base_info_value()));
    assert(members_view(m@) =~= upload_request_spec(to_user_id@, data@, upload_media_type, file_key@, aes_key_hex@)->Object_0);
    json_object(m)
}

/// The upload parameter and the full upload URL (when given and non-empty) of a
/// `getuploadurl` response.
pub fn upload_params(resp: &JsonValue) -> (r: Result<(String, Option<String>), String>)
    ensures
        match resp@.get_str("upload_param"@) {
            Some(p) => (r matches Ok((a, b)) && a@ == p && match non_empty(resp@.get_str("upload_full_url"@)) {
                Some(u) => b matches Some(bu) && bu@ == u,
                None => b is None,
            }),
            None => (r matches Err(e) && e@ == "missing upload_param"@),
        },
{
    let param = match resp.get_str("upload_param") {
        Some(p) => p,
        None => {
            return Err(string_from("missing upload_param"));
        },
    };
    let full = match resp.get_str("upload_full_url") {
        Some(u) => if u.as_str().is_empty() {
            None
        } else {
            Some(u)
        },
        None => None,
    };
    Ok((param, full))
}

/// The media keys made from two reads of the random source: each is the hex text of
/// a version-4 UUID made from one read. An error when either read failed.
pub fn media_keys_from(
    file_random: Result<Vec<u8>, String>,
    aes_random: Result<Vec<u8>, String>,
) -> (r: Result<(String, String), String>)
    ensures
        (sixteen_random(file_random) && sixteen_random(aes_random)) <==> r is Ok,
        r matches Ok(k) ==> k.0@ == hex_encoded(v4_bits(file_random->Ok_0@)) && k.1@ == hex_encoded(
            v4_bits(aes_random->Ok_0@),
        ),
        r matches Err(e) ==> (match (file_random, aes_random) {
            (Err(f), _) => e@ == f@,
            (Ok(_), Err(a)) => e@ == a@,
            _ => e@ == "random source gave the wrong number of bytes"@,
        }),
{
    let a = match file_random {
        Ok(a) => a,
        Err(e) => return Err(e),
    };
    let b = match aes_random {
        Ok(b) => b,
        Err(e) => return Err(e),
    };
    if a.len() != 16 || b.len() != 16 {
        return Err(string_from("random source gave the wrong number of bytes"));
    }
    let ua = v4_uuid_bytes(a.as_slice());
    let ub = v4_uuid_bytes(b.as_slice());
    Ok((hex_encode(ua.as_slice()), hex_encode(ub.as_slice())))
}

/// A fresh random file key and AES key, each the 32 hex digits of a random
/// version-4 UUID; an error when the operating system's random source fails.
pub fn new_media_keys() -> (r: Result<(String, String), String>)
    ensures
        r matches Ok(k) ==> k.0@.len() == 32 && k.1@.len() == 32,
        r matches Ok(k) ==> exists|a: Seq<u8>| a.len() == 16 && k.0@ == #[trigger] hex_encoded(v4_bits(a)),
        r matches Ok(k) ==> exists|b: Seq<u8>| b.len() == 16 && k.1@ == #[trigger] hex_encoded(v4_bits(b)),
{
    let file_random = crate::entropy::random_bytes(16);
    let aes_random = crate::entropy::random_bytes(16);
    let r = media_keys_from(file_random, aes_random);
    proof {
        if r is Ok {
            let a = file_random->Ok_0@;
            let b = aes_random->Ok_0@;
            assert(v4_bits(a).len() == 16);
            assert(v4_bits(b).len() == 16);
        }
    }
    r
}

/// `{"encrypt_query_param": ..., "aes_key": base64 of the hex key text, "encrypt_type": 1}`.
pub open spec fn media_payload_spec(param: Seq<char>, aes_key_hex: Seq<char>) -> Json {
    Json::Object(
        seq![
            ("encrypt_query_param"@, Json::Str(param)),
            ("aes_key"@, Json::Str(base64_std_encode(encode_utf8(aes_key_hex)))),
            ("encrypt_type"@, Json::Int(1)),
        ],
    )
}

/// The decimal text of a signed integer.
pub open spec fn signed_decimal(n: int) -> Seq<char> {
    if n < 0 {
        "-"@ + decimal((-n) as nat)
    } else {
        decimal(n as nat)
    }
}

fn i64_string(n: i64) -> (r: String)
    ensures
        r@ == signed_decimal(n as int),
{
    if n < 0 {
        let mut s = string_from("-");
        let m: u64 = (0i128 - n as i128) as u64;
        let d = decimal_string(m);
        push_str(&mut s, d.as_str());
        s
    } else {
        decimal_string(n as u64)
    }
}

/// The media item of an uploaded file: image (2), voice (3) or file (4).
pub open spec fn media_item_spec(
    item_type: i64,
    param: Seq<char>,
    aes_key_hex: Seq<char>,
    cipher_size: int,
    file_name: Seq<char>,
    raw_size: nat,
) -> Option<Json> {
    let media = media_payload_spec(param, aes_key_hex);
    if item_type == 2 {
        Some(Json::Object(seq![("type"@, Json::Int(2)), ("image_item"@, Json::Object(
            seq![("media"@, media), ("mid_size"@, Json::Int(cipher_size as i64))],
        ))]))
    } else if item_type == 3 {
        Some(Json::Object(seq![("type"@, Json::Int(3)), ("voice_item"@, Json::Object(
            seq![("media"@, media), ("voice_size"@, Json::Int(cipher_size as i64))],
        ))]))
    } else if item_type == 4 {
        Some(Json::Object(seq![("type"@, Json::Int(4)), ("file_item"@, Json::Object(
            seq![("media"@, media), ("file_name"@, Json::Str(file_name)), ("len"@, Json::Str(decimal(raw_size)))],
        ))]))
    } else {
        None
    }
}

/// The item that refers to an uploaded file in an outgoing message.
pub fn media_item(
    item_type: i64,
    encrypt_query_param: &str,
    aes_key_hex: &str,
    cipher_size: usize,
    file_name: &str,
    raw_size: usize,
) -> (r: Result<JsonValue, String>)
    requires
        cipher_size <= i64::MAX,
    ensures
        match media_item_spec(item_type, encrypt_query_param@, aes_key_hex@, cipher_size as int, file_name@, raw_size as nat) {
            Some(j) => (r matches Ok(v) && v@ == j),
            None => (r matches Err(e) && e@ == "unsupported item type: "@ + signed_decimal(item_type as int)),
        },
{
    let key_b64 = crate::platform::sources::weixin_oc::crypto::base64_encode_standard(aes_key_hex.as_bytes());
    let mut mp: Vec<(String, JsonValue)> = Vec::new();
    mp.push((string_from("encrypt_query_param"), JsonValue::string(encrypt_query_param)));
    mp.push((string_from("aes_key"), JsonValue::Str(key_b64)));
    mp.push((string_from("encrypt_type"), JsonValue::Int(1)));
    assert(members_view(mp@) =~= media_payload_spec(encrypt_query_param@, aes_key_hex@)->Object_0);
    let media = json_object(mp);
    let ghost media_view = media@;
    let mut inner: Vec<(String, JsonValue)> = Vec::new();
    inner.push((string_from("media"), media));
    let (item_code, item_key): (i64, &str) = if item_type == 2 {
        inner.push((string_from("mid_size"), JsonValue::Int(cipher_size as i64)));
        (2, "image_item")
    } else if item_type == 3 {
        inner.push((string_from("voice_size"), JsonValue::Int(cipher_size as i64)));
        (3, "voice_item")
    } else if item_type == 4 {
        inner.push((string_from("file_name"), JsonValue::string(file_name)));
        inner.push((string_from("len"), JsonValue::Str(decimal_string(raw_size as u64))));
        (4, "file_item")
    } else {
        let mut e = string_from("unsupported item type: ");
        let d = i64_string(item_type);
        push_str(&mut e, d.as_str());
        return Err(e);
    };
    let ghost inner_view = members_view(inner@);
    let inner_obj = json_object(inner);
    let mut outer: Vec<(String, JsonValue)> = Vec::new();
    outer.push((string_from("type"), JsonValue::Int(item_code)));
    outer.push((string_from(item_key), inner_obj));
    let r = json_object(outer);
    proof {
        if item_type == 2 {
            assert(inner_view =~= seq![("media"@, media_view), ("mid_size"@, Json::Int(cipher_size as i64))]);
        } else if item_type == 3 {
            assert(inner_view =~= seq![("media"@, media_view), ("voice_size"@, Json::Int(cipher_size as i64))]);
        } else {
            assert(inner_view =~= seq![("media"@, media_view), ("file_name"@, Json::Str(file_name@)), ("len"@, Json::Str(decimal(raw_size as nat)))]);
        }
        assert(r@->Object_0 =~= media_item_spec(item_type, encrypt_query_param@, aes_key_hex@, cipher_size as int, file_name@, raw_size as nat)->0->Object_0);
    }
    Ok(r)
}

/// The body of a `sendmessage` request carrying `items` to `session_id`, with the
/// session's context token when one is known.
pub open spec fn send_payload_spec(
    session_id: Seq<char>,
    client_id: Seq<char>,
    items: Seq<Json>,
    token: Option<Seq<char>>,
) -> Json {
    let msg = seq![
        ("from_user_id"@, Json::Str(Seq::empty())),
        ("to_user_id"@, Json::Str(session_id)),
        ("client_id"@, Json::Str(client_id)),
        ("message_type"@, Json::Int(2)),
        ("message_state"@, Json::Int(2)),
        ("item_list"@, Json::Array(items)),
    ];
    let msg = match token {
        Some(t) => msg.push(("context_token"@, Json::Str(t))),
        None => msg,
    };
    Json::Object(seq![("base_info"@, base_info()), ("msg"@, Json::Object(msg))])
}

impl WeixinOCAdapter {
    /// The `sendmessage` body for `items`, with client id `client_id`.
    pub fn send_payload(&self, session_id: &str, client_id: &str, items: Vec<JsonValue>) -> (r: JsonValue)
        ensures
            r@ == send_payload_spec(
                session_id@,
                client_id@,
                values_view(items@),
                assoc_get(self.tokens_view(), session_id@),
            ),
    {
        let token = self.context_token_for(session_id);
        let list = crate::json::json_array(items);
        let ghost list_view = list@;
        let mut msg: Vec<(String, JsonValue)> = Vec::new();
        msg.push((string_from("from_user_id"), JsonValue::Str(String::new())));
        msg.push((string_from("to_user_id"), JsonValue::string(session_id)));
        msg.push((string_from("client_id"), JsonValue::string(client_id)));
        msg.push((string_from("message_type"), JsonValue::Int(2)));
        msg.push((string_from("message_state"), JsonValue::Int(2)));
        msg.push((string_from("item_list"), list));
        let ghost tv: Option<Seq<char>> = match &token {
            Some(t) => Some(t@),
            None => None,
        };
        match token {
            Some(t) => {
                msg.push((string_from("context_token"), JsonValue::Str(t)));
            },
            None => {},
        }
        let ghost mv = members_view(msg@);
        let msg_obj = json_object(msg);
        let mut outer: Vec<(String, JsonValue)> = Vec::new();
        outer.push((string_from("base_info"), base_info_value()));
        outer.push((string_from("msg"), msg_obj));
        let r = json_object(outer);
        proof {
            let expected = send_payload_spec(session_id@, client_id@, list_view->Array_0, tv);
            assert(mv =~= expected->Object_0[1].1->Object_0);
            assert(r@->Object_0 =~= expected->Object_0);
        }
        r
    }

    /// The `sendmessage` body for `items` with a fresh random client id (see
    /// `new_uuid_string`), or `None` when there is nothing to send.
    pub fn build_send_payload(&self, session_id: &str, items: Vec<JsonValue>) -> (r: Option<JsonValue>)
        ensures
            items@.len() == 0 ==> r is None,
            items@.len() > 0 ==> (r matches Some(v) && exists|cid: Seq<char>| cid.len() == 36 && fresh_uuid_text(cid) && v@ == #[trigger] send_payload_spec(
                session_id@,
                cid,
                values_view(items@),
                assoc_get(self.tokens_view(), session_id@),
            )),
    {
        if items.len() == 0 {
            return None;
        }
        let client_id = new_uuid_string();
        Some(self.send_payload(session_id, client_id.as_str(), items))
    }
}

/// What a synced message becomes: its type from whether it came from a group, the
/// adapter as receiver, its session, ids, sender, group and text, and the time.
pub open spec fn synced_message(
    m: AstrBotMessage,
    self_id: Seq<char>,
    msg: Json,
    id: Seq<char>,
    text: Seq<char>,
    now: i64,
) -> bool {
    &&& m.message_type == (if sync_group_id(msg) is Some {
        MessageType::GroupMessage
    } else {
        MessageType::FriendMessage
    })
    &&& m.self_id@ == self_id
    &&& m.session_id@ == sync_session_key(msg)
    &&& m.message_id@ == id
    &&& m.sender.user_id@ == sync_from_user(msg)
    &&& m.sender.nickname matches Some(n) && n@ == sync_nickname(msg)
    &&& match sync_group_id(msg) {
        Some(g) => m.group matches Some(gr) && gr.group_id@ == g && gr.group_name is None,
        None => m.group is None,
    }
    &&& m.message.chain@.len() == 0
    &&& m.message_str@ == text
    &&& m.timestamp == now
}

} // verus!
