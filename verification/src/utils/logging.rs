//! The in-memory buffer of recent log entries behind the dashboard's log views.
use vstd::prelude::*;

use crate::json::{json_object, members_view, Json, JsonValue};
use crate::text::string_from;

verus! {

/// One log record: when (Unix seconds, and nanoseconds within the second), how
/// severe, from where, and what.
#[derive(Debug, Clone)]
pub struct LogEntry {
    pub timestamp_secs: i64,
    pub timestamp_nanos: u32,
    pub level: String,
    pub target: String,
    pub message: String,
}

impl LogEntry {
    /// A copy of this entry.
    pub fn duplicate(&self) -> (r: LogEntry)
        ensures
            r == *self,
    {
        LogEntry {
            timestamp_secs: self.timestamp_secs,
            timestamp_nanos: self.timestamp_nanos,
            level: self.level.clone(),
            target: self.target.clone(),
            message: self.message.clone(),
        }
    }
}

/// The most recent log entries, oldest first, at most `max_entries` of them (one,
/// when `max_entries` is zero).
pub struct LogBuffer {
    pub entries: Vec<LogEntry>,
    pub max_entries: usize,
}

/// The entries kept after `e` is added to `s`: the oldest goes first when `max` or
/// more are held.
pub open spec fn log_push(s: Seq<LogEntry>, e: LogEntry, max: nat) -> Seq<LogEntry> {
    if s.len() >= max && s.len() > 0 {
        s.drop_first().push(e)
    } else {
        s.push(e)
    }
}

/// The newest `count` entries of `s` (all of them if fewer), newest first.
pub open spec fn log_recent(s: Seq<LogEntry>, count: nat) -> Seq<LogEntry> {
    let n = if count < s.len() { count } else { s.len() };
    Seq::new(n, |i: int| s[s.len() - 1 - i])
}

/// The number of entries a buffer of capacity `max` holds at most.
pub open spec fn log_capacity(max: nat) -> nat {
    if max == 0 {
        1
    } else {
        max
    }
}

/// Law: a buffer never holds more than its capacity, and the entry just added is
/// the newest one reported.
pub proof fn lemma_log_push(s: Seq<LogEntry>, e: LogEntry, max: nat)
    requires
        s.len() <= log_capacity(max),
    ensures
        log_push(s, e, max).len() <= log_capacity(max),
        log_recent(log_push(s, e, max), 1) == seq![e],
{
    let t = log_push(s, e, max);
    assert(log_recent(t, 1) =~= seq![e]);
}

/// The entries kept after pushing `es`, in order, onto `s`.
pub open spec fn log_push_all(s: Seq<LogEntry>, es: Seq<LogEntry>, max: nat) -> Seq<LogEntry>
    decreases es.len(),
{
    if es.len() == 0 {
        s
    } else {
        log_push(log_push_all(s, es.drop_last(), max), es.last(), max)
    }
}

/// Law: a buffer of capacity `max` (at least one) that was given the entries `es`
/// in order keeps the newest `min(n, max)` of them, oldest first; asking it for `k`
/// recent entries gives the newest `min(k, n, max)`, newest first.
pub proof fn lemma_log_run(es: Seq<LogEntry>, max: nat, k: nat)
    requires
        max >= 1,
    ensures
        ({
            let n = es.len();
            let kept = if n < max { n } else { max };
            let j = if k < kept { k } else { kept };
            &&& log_push_all(Seq::empty(), es, max) == es.skip(n - kept)
            &&& log_recent(log_push_all(Seq::empty(), es, max), k) == Seq::new(j, |i: int| es[n - 1 - i])
        }),
    decreases es.len(),
{
    let n = es.len();
    let kept = if n < max { n } else { max };
    if n > 0 {
        let d = es.drop_last();
        lemma_log_run(d, max, k);
        let t = log_push_all(Seq::empty(), d, max);
        let dk = if d.len() < max { d.len() } else { max };
        assert(t == d.skip(d.len() - dk));
        if t.len() >= max && t.len() > 0 {
            assert(t.drop_first().push(es.last()) =~= es.skip(n - kept));
        } else {
            assert(t.push(es.last()) =~= es.skip(n - kept));
        }
    } else {
        assert(es.skip(0) =~= es);
    }
    let r = log_push_all(Seq::empty(), es, max);
    let j = if k < kept { k } else { kept };
    assert(log_recent(r, k) =~= Seq::new(j, |i: int| es[n - 1 - i]));
}

impl LogBuffer {
    pub fn new(max_entries: usize) -> (r: LogBuffer)
        ensures
            r.entries@.len() == 0,
            r.max_entries == max_entries,
    {
        LogBuffer { entries: Vec::new(), max_entries }
    }

    /// Adds an entry, dropping the oldest when full.
    pub fn push(&mut self, entry: LogEntry)
        ensures
            final(self).entries@ == log_push(old(self).entries@, entry, old(self).max_entries as nat),
            final(self).max_entries == old(self).max_entries,
    {
        if self.entries.len() >= self.max_entries && self.entries.len() > 0 {
            self.entries.remove(0);
        }
        self.entries.push(entry);
        assert(self.entries@ =~= log_push(old(self).entries@, entry, old(self).max_entries as nat));
    }

    /// The newest `count` entries, newest first.
    pub fn recent(&self, count: usize) -> (r: Vec<LogEntry>)
        ensures
            r@ == log_recent(self.entries@, count as nat),
    {
        let len = self.entries.len();
        let n: usize = if count < len { count } else { len };
        let mut out: Vec<LogEntry> = Vec::new();
        let mut i: usize = 0;
        while i < n
            invariant
                i <= n,
                n <= len,
                len == self.entries@.len(),
                n == (if count < len { count } else { len }),
                out@ == log_recent(self.entries@, count as nat).take(i as int),
            decreases n - i,
        {
            let e = self.entries[len - 1 - i].duplicate();
            out.push(e);
            assert(out@ =~= log_recent(self.entries@, count as nat).take(i + 1));
            i = i + 1;
        }
        assert(out@ =~= log_recent(self.entries@, count as nat));
        out
    }
}

/// The RFC 3339 text of the instant `secs` seconds and `nanos` nanoseconds after the
/// Unix epoch, in UTC, when it is representable.
pub uninterp spec fn rfc3339_of(secs: i64, nanos: u32) -> Option<Seq<char>>;

/// Calls `chrono::DateTime::<Utc>::from_timestamp(secs, nanos)` and formats the
/// instant with `to_rfc3339`; the contract ties the text to the named result only.
#[verifier::external_body]
fn rfc3339_text(secs: i64, nanos: u32) -> (r: Option<String>)
    ensures
        match r {
            Some(t) => rfc3339_of(secs, nanos) == Some(t@),
            None => rfc3339_of(secs, nanos) is None,
        },
{
    chrono::DateTime::from_timestamp(secs, nanos).map(|t| t.to_rfc3339())
}

/// How an entry is shown by the log views: its time (RFC 3339, or null when not
/// representable), level, target and message.
pub open spec fn entry_json(e: LogEntry) -> Json {
    Json::Object(
        seq![
            ("timestamp"@, match rfc3339_of(e.timestamp_secs, e.timestamp_nanos) {
                Some(t) => Json::Str(t),
                None => Json::Null,
            }),
            ("level"@, Json::Str(e.level@)),
            ("target"@, Json::Str(e.target@)),
            ("message"@, Json::Str(e.message@)),
        ],
    )
}

/// How an entry is shown by the log views.
pub fn log_entry_json(entry: &LogEntry) -> (r: JsonValue)
    ensures
        r@ == entry_json(*entry),
{
    let ts = match rfc3339_text(entry.timestamp_secs, entry.timestamp_nanos) {
        Some(t) => JsonValue::Str(t),
        None => JsonValue::Null,
    };
    let mut m: Vec<(String, JsonValue)> = Vec::new();
    m.push((string_from("timestamp"), ts));
    m.push((string_from("level"), JsonValue::string(entry.level.as_str())));
    m.push((string_from("target"), JsonValue::string(entry.target.as_str())));
    m.push((string_from("message"), JsonValue::string(entry.message.as_str())));
    assert(members_view(m@) =~= entry_json(*entry)->Object_0);
    json_object(m)
}

} // verus!
