//! Recently received messages per session, for resolving quoted replies.
use vstd::prelude::*;

use crate::text::str_eq;

verus! {

/// A message remembered so that a later reply can quote it.
#[derive(Debug)]
pub struct CachedMessage {
    pub message_id: String,
    pub sender_id: String,
    pub text: String,
    pub timestamp: i64,
}

/// A remembered message as the specification sees it.
pub struct CachedView {
    pub message_id: Seq<char>,
    pub sender_id: Seq<char>,
    pub text: Seq<char>,
    pub timestamp: i64,
}

impl CachedMessage {
    pub open spec fn view(&self) -> CachedView {
        CachedView {
            message_id: self.message_id@,
            sender_id: self.sender_id@,
            text: self.text@,
            timestamp: self.timestamp,
        }
    }
}

/// The views of a queue of remembered messages.
pub open spec fn queue_view(q: Seq<CachedMessage>) -> Seq<CachedView> {
    Seq::new(q.len(), |i: int| q[i].view())
}

/// Per-session queues of recent messages, bounded in length and in number.
pub struct RecentMessageCache {
    pub sessions: Vec<(String, Vec<CachedMessage>)>,
    pub max_cache_size: usize,
    pub max_sessions: usize,
}

/// A session as the specification sees it: its id and its queue, oldest first.
pub type SessionView = (Seq<char>, Seq<CachedView>);

/// The time of the newest message of a queue (0 for an empty queue), by which
/// sessions are ranked when some must go.
pub open spec fn last_stamp(msgs: Seq<CachedView>) -> i64 {
    if msgs.len() == 0 {
        0
    } else {
        msgs.last().timestamp
    }
}

/// The index of the first session named `sid`, or -1.
pub open spec fn find_session(s: Seq<SessionView>, sid: Seq<char>) -> int
    decreases s.len(),
{
    if s.len() == 0 {
        -1
    } else if s[0].0 == sid {
        0
    } else {
        let r = find_session(s.drop_first(), sid);
        if r < 0 {
            -1
        } else {
            r + 1
        }
    }
}

/// `msgs` with `msg` appended, dropping the oldest message first when the queue
/// already holds `max` or more.
pub open spec fn bounded_push(msgs: Seq<CachedView>, msg: CachedView, max: nat) -> Seq<CachedView> {
    if msgs.len() >= max && msgs.len() > 0 {
        msgs.drop_first().push(msg)
    } else {
        msgs.push(msg)
    }
}

/// The sessions after `msg` is queued for `sid` (a new session goes last).
pub open spec fn upsert(s: Seq<SessionView>, sid: Seq<char>, msg: CachedView, max: nat) -> Seq<SessionView> {
    let i = find_session(s, sid);
    if i >= 0 {
        s.update(i, (sid, bounded_push(s[i].1, msg, max)))
    } else {
        s.push((sid, bounded_push(Seq::empty(), msg, max)))
    }
}

/// The index of the session that goes first when there are too many: the one whose
/// newest message is the newest, the last such one on ties.
pub open spec fn victim(s: Seq<SessionView>) -> int
    decreases s.len(),
{
    if s.len() <= 1 {
        0
    } else {
        let v = victim(s.drop_last());
        if last_stamp(s.last().1) >= last_stamp(s[v].1) {
            s.len() - 1
        } else {
            v
        }
    }
}

/// The sessions once the newest ones are dropped until at most `max` remain; the same
/// sessions that sorting by newest-message time (stable) and keeping the first `max`
/// retains.
pub open spec fn prune(s: Seq<SessionView>, max: nat) -> Seq<SessionView>
    decreases s.len(),
{
    if s.len() <= max {
        s
    } else {
        proof {
            lemma_victim_in_range(s);
        }
        prune(s.remove(victim(s)), max)
    }
}

/// The first message of `msgs` whose id is `id`.
pub open spec fn find_message(msgs: Seq<CachedView>, id: Seq<char>) -> Option<CachedView>
    decreases msgs.len(),
{
    if msgs.len() == 0 {
        None
    } else if msgs[0].message_id == id {
        Some(msgs[0])
    } else {
        find_message(msgs.drop_first(), id)
    }
}

/// Whether no session id occurs twice.
pub open spec fn unique_sessions(s: Seq<SessionView>) -> bool {
    forall|i: int, j: int| 0 <= i < j < s.len() ==> s[i].0 != s[j].0
}

/// The session chosen to go is one of the sessions.
pub proof fn lemma_victim_in_range(s: Seq<SessionView>)
    requires
        s.len() > 0,
    ensures
        0 <= victim(s) < s.len(),
    decreases s.len(),
{
    if s.len() > 1 {
        lemma_victim_in_range(s.drop_last());
    }
}

proof fn lemma_find_session(s: Seq<SessionView>, sid: Seq<char>)
    ensures
        -1 <= find_session(s, sid) < s.len(),
        find_session(s, sid) >= 0 ==> s[find_session(s, sid)].0 == sid,
        find_session(s, sid) >= 0 ==> forall|k: int| 0 <= k < find_session(s, sid) ==> s[k].0 != sid,
        find_session(s, sid) < 0 ==> forall|k: int| 0 <= k < s.len() ==> s[k].0 != sid,
    decreases s.len(),
{
    if s.len() > 0 && s[0].0 != sid {
        lemma_find_session(s.drop_first(), sid);
        assert forall|k: int| 1 <= k < s.len() implies s[k].0 == s.drop_first()[k - 1].0 by {}
    }
}

/// Law: after pruning, at most `max` sessions remain; pruning keeps what is already
/// small enough; and every remaining session was there before, with the same queue.
pub proof fn lemma_prune_bound(s: Seq<SessionView>, max: nat)
    ensures
        prune(s, max).len() == if s.len() <= max {
            s.len()
        } else {
            max
        },
        s.len() <= max ==> prune(s, max) == s,
        forall|i: int| 0 <= i < prune(s, max).len() ==> s.contains(#[trigger] prune(s, max)[i]),
    decreases s.len(),
{
    if s.len() > max {
        lemma_victim_in_range(s);
        let t = s.remove(victim(s));
        lemma_prune_bound(t, max);
        assert forall|i: int| 0 <= i < prune(s, max).len() implies s.contains(#[trigger] prune(s, max)[i]) by {
            let x = prune(t, max)[i];
            assert(t.contains(x));
            let k = choose|k: int| 0 <= k < t.len() && t[k] == x;
            if k < victim(s) {
                assert(s[k] == x);
            } else {
                assert(s[k + 1] == x);
            }
        }
    }
}

/// Law: queueing keeps every queue within `max(max_cache_size, 1)` messages and the
/// new message is the newest of its session.
pub proof fn lemma_bounded_push(msgs: Seq<CachedView>, msg: CachedView, max: nat)
    requires
        msgs.len() <= if max == 0 {
            1
        } else {
            max
        },
    ensures
        bounded_push(msgs, msg, max).len() <= if max == 0 {
            1
        } else {
            max
        },
        bounded_push(msgs, msg, max).last() == msg,
{
}

/// A message not found in `msgs` is found, as itself, once appended.
proof fn lemma_find_message_push(msgs: Seq<CachedView>, m: CachedView)
    requires
        find_message(msgs, m.message_id) is None,
    ensures
        find_message(msgs.push(m), m.message_id) == Some(m),
    decreases msgs.len(),
{
    if msgs.len() > 0 {
        assert(msgs.push(m).drop_first() =~= msgs.drop_first().push(m));
        lemma_find_message_push(msgs.drop_first(), m);
    } else {
        assert(msgs.push(m)[0] == m);
    }
}

/// A message not found in `msgs` is not found after its oldest entry is dropped.
proof fn lemma_find_message_drop_first(msgs: Seq<CachedView>, id: Seq<char>)
    requires
        msgs.len() > 0,
        find_message(msgs, id) is None,
    ensures
        find_message(msgs.drop_first(), id) is None,
{
}

/// Law: a message just added to a session is what a lookup of its id there finds,
/// provided its id was not already queued for that session and no session had to
/// be dropped to make room.
pub proof fn lemma_add_then_find(s: Seq<SessionView>, sid: Seq<char>, m: CachedView, max_cache: nat, max_sessions: nat)
    requires
        upsert(s, sid, m, max_cache).len() <= max_sessions,
        find_session(s, sid) >= 0 ==> find_message(s[find_session(s, sid)].1, m.message_id) is None,
    ensures
        ({
            let t = prune(upsert(s, sid, m, max_cache), max_sessions);
            &&& find_session(t, sid) >= 0
            &&& find_message(t[find_session(t, sid)].1, m.message_id) == Some(m)
        }),
{
    lemma_find_session(s, sid);
    let t = upsert(s, sid, m, max_cache);
    lemma_prune_bound(t, max_sessions);
    assert(prune(t, max_sessions) == t);
    lemma_find_session(t, sid);
    let i = find_session(s, sid);
    if i >= 0 {
        let q = s[i].1;
        if q.len() >= max_cache && q.len() > 0 {
            lemma_find_message_drop_first(q, m.message_id);
            lemma_find_message_push(q.drop_first(), m);
        } else {
            lemma_find_message_push(q, m);
        }
        assert(t[i].0 == sid);
        assert forall|k: int| 0 <= k < i implies t[k].0 != sid by {
            assert(t[k] == s[k]);
        }
        assert(find_session(t, sid) == i) by {
            lemma_find_session_at(t, sid, i);
        }
    } else {
        lemma_find_message_push(Seq::empty(), m);
        assert(t[s.len() as int].0 == sid);
        assert forall|k: int| 0 <= k < s.len() implies t[k].0 != sid by {
            assert(t[k] == s[k]);
        }
        assert(find_session(t, sid) == s.len()) by {
            lemma_find_session_at(t, sid, s.len() as int);
        }
    }
}

/// The first session named `sid` is at `i` when it is named so and none before is.
proof fn lemma_find_session_at(s: Seq<SessionView>, sid: Seq<char>, i: int)
    requires
        0 <= i < s.len(),
        s[i].0 == sid,
        forall|k: int| 0 <= k < i ==> s[k].0 != sid,
    ensures
        find_session(s, sid) == i,
{
    lemma_find_session(s, sid);
}

impl RecentMessageCache {
    /// The sessions as the specification sees them.
    pub open spec fn view_sessions(&self) -> Seq<SessionView> {
        Seq::new(self.sessions@.len(), |i: int| (self.sessions@[i].0@, queue_view(self.sessions@[i].1@)))
    }

    /// What the cache keeps true: no session twice, no more than `max_sessions`
    /// sessions, no queue longer than `max(max_cache_size, 1)`.
    pub open spec fn wf(&self) -> bool {
        &&& unique_sessions(self.view_sessions())
        &&& self.sessions@.len() <= self.max_sessions
        &&& forall|i: int|
            0 <= i < self.sessions@.len() ==> (#[trigger] self.sessions@[i]).1@.len() <= if self.max_cache_size == 0 {
                1
            } else {
                self.max_cache_size as int
            }
    }

    pub fn new(max_cache_size: usize, max_sessions: usize) -> (r: RecentMessageCache)
        ensures
            r.sessions@.len() == 0,
            r.max_cache_size == max_cache_size,
            r.max_sessions == max_sessions,
            r.wf(),
    {
        RecentMessageCache { sessions: Vec::new(), max_cache_size, max_sessions }
    }

    fn find_index(&self, session_id: &str) -> (r: Option<usize>)
        ensures
            match r {
                Some(i) => find_session(self.view_sessions(), session_id@) == i as int,
                None => find_session(self.view_sessions(), session_id@) < 0,
            },
    {
        let ghost s = self.view_sessions();
        proof {
            lemma_find_session(s, session_id@);
        }
        let mut i: usize = 0;
        while i < self.sessions.len()
            invariant
                i <= self.sessions@.len(),
                s == self.view_sessions(),
                -1 <= find_session(s, session_id@) < s.len(),
                find_session(s, session_id@) >= 0 ==> s[find_session(s, session_id@)].0 == session_id@,
                find_session(s, session_id@) >= 0 ==> forall|k: int| 0 <= k < find_session(s, session_id@) ==> s[k].0 != session_id@,
                find_session(s, session_id@) < 0 ==> forall|k: int| 0 <= k < s.len() ==> s[k].0 != session_id@,
                forall|k: int| 0 <= k < i ==> s[k].0 != session_id@,
            decreases self.sessions.len() - i,
        {
            if str_eq(self.sessions[i].0.as_str(), session_id) {
                assert(s[i as int].0 == session_id@);
                return Some(i);
            }
            i = i + 1;
        }
        None
    }

    fn victim_index(&self) -> (r: usize)
        requires
            self.sessions@.len() > 0,
        ensures
            r as int == victim(self.view_sessions()),
    {
        let ghost s = self.view_sessions();
        let mut best: usize = 0;
        let mut i: usize = 1;
        assert(s.take(1).len() == 1);
        while i < self.sessions.len()
            invariant
                1 <= i <= self.sessions@.len(),
                s == self.view_sessions(),
                best < i,
                best as int == victim(s.take(i as int)),
            decreases self.sessions.len() - i,
        {
            let ghost t = s.take(i + 1);
            assert(t.drop_last() =~= s.take(i as int));
            let cur = &self.sessions[i].1;
            let cur_stamp: i64 = if cur.len() == 0 {
                0
            } else {
                cur[cur.len() - 1].timestamp
            };
            let bq = &self.sessions[best].1;
            let best_stamp: i64 = if bq.len() == 0 {
                0
            } else {
                bq[bq.len() - 1].timestamp
            };
            assert(cur_stamp == last_stamp(t.last().1));
            assert(best_stamp == last_stamp(t[best as int].1));
            if cur_stamp >= best_stamp {
                best = i;
            }
            i = i + 1;
        }
        assert(s.take(self.sessions@.len() as int) =~= s);
        best
    }

    /// Drops sessions, newest first, until at most `max_sessions` remain.
    pub fn prune_sessions(&mut self)
        ensures
            final(self).view_sessions() == prune(old(self).view_sessions(), old(self).max_sessions as nat),
            final(self).max_sessions == old(self).max_sessions,
            final(self).max_cache_size == old(self).max_cache_size,
            forall|i: int| 0 <= i < final(self).sessions@.len() ==> old(self).sessions@.contains(#[trigger] final(self).sessions@[i]),
    {
        let ghost initial = self.sessions@;
        while self.sessions.len() > self.max_sessions
            invariant
                prune(self.view_sessions(), self.max_sessions as nat) == prune(
                    old(self).view_sessions(),
                    old(self).max_sessions as nat,
                ),
                self.max_sessions == old(self).max_sessions,
                self.max_cache_size == old(self).max_cache_size,
                initial == old(self).sessions@,
                forall|i: int| 0 <= i < self.sessions@.len() ==> initial.contains(#[trigger] self.sessions@[i]),
            decreases self.sessions.len(),
        {
            let ghost before = self.sessions@;
            let ghost vs = self.view_sessions();
            let v = self.victim_index();
            proof {
                lemma_victim_in_range(vs);
            }
            self.sessions.remove(v);
            assert(self.view_sessions() =~= vs.remove(v as int));
            assert forall|i: int| 0 <= i < self.sessions@.len() implies initial.contains(#[trigger] self.sessions@[i]) by {
                if i < v {
                    assert(self.sessions@[i] == before[i]);
                    assert(initial.contains(before[i]));
                } else {
                    assert(self.sessions@[i] == before[i + 1]);
                    assert(initial.contains(before[i + 1]));
                }
            }
        }
    }

    /// Queues `msg` for `session_id`, then drops sessions if there are too many.
    pub fn add(&mut self, session_id: String, msg: CachedMessage)
        ensures
            final(self).view_sessions() == prune(
                upsert(old(self).view_sessions(), session_id@, msg.view(), old(self).max_cache_size as nat),
                old(self).max_sessions as nat,
            ),
            final(self).max_sessions == old(self).max_sessions,
            final(self).max_cache_size == old(self).max_cache_size,
            old(self).wf() ==> final(self).wf(),
    {
        let ghost s0 = self.view_sessions();
        let ghost msg_ghost = msg.view();
        let idx = self.find_index(session_id.as_str());
        proof {
            lemma_find_session(s0, session_id@);
        }
        let ghost mid: Seq<SessionView>;
        match idx {
            Some(i) => {
                let mut queue: Vec<CachedMessage> = Vec::new();
                let mut key = String::new();
                let ghost old_q = queue_view(self.sessions@[i as int].1@);
                let ghost old_entry = self.sessions@[i as int];
                let mut entry = self.sessions.remove(i);
                std::mem::swap(&mut queue, &mut entry.1);
                std::mem::swap(&mut key, &mut entry.0);
                if queue.len() >= self.max_cache_size && queue.len() > 0 {
                    queue.remove(0);
                }
                queue.push(msg);
                assert(queue_view(queue@) =~= bounded_push(old_q, msg_ghost, self.max_cache_size as nat));
                self.sessions.insert(i, (key, queue));
                assert(self.view_sessions() =~= upsert(s0, session_id@, msg_ghost, self.max_cache_size as nat));
                proof {
                    mid = self.view_sessions();
                }
            },
            None => {
                let mut queue: Vec<CachedMessage> = Vec::new();
                queue.push(msg);
                assert(queue_view(queue@) =~= bounded_push(Seq::empty(), msg_ghost, self.max_cache_size as nat));
                self.sessions.push((session_id, queue));
                assert(self.view_sessions() =~= upsert(s0, session_id@, msg_ghost, self.max_cache_size as nat));
                proof {
                    mid = self.view_sessions();
                }
            },
        }
        let ghost mid_sessions = self.sessions@;
        self.prune_sessions();
        proof {
            lemma_prune_bound(mid, self.max_sessions as nat);
            if old(self).wf() {
                let cap: int = if self.max_cache_size == 0 { 1 } else { self.max_cache_size as int };
                assert forall|i: int| 0 <= i < mid_sessions.len() implies (#[trigger] mid_sessions[i]).1@.len() <= cap by {
                    assert(mid[i].1 == queue_view(mid_sessions[i].1@));
                    if i == find_session(s0, session_id@) || (find_session(s0, session_id@) < 0 && i == s0.len()) {
                    } else {
                        assert(mid[i] == s0[i]);
                    }
                }
                assert forall|i: int| 0 <= i < self.sessions@.len() implies (#[trigger] self.sessions@[i]).1@.len() <= cap by {
                    assert(mid_sessions.contains(self.sessions@[i]));
                }
                assert(unique_sessions(mid));
                lemma_prune_unique(mid, self.max_sessions as nat);
            }
        }
    }

    /// The remembered message `ref_msg_id` of session `session_id`, if any.
    pub fn find_reply(&self, session_id: &str, ref_msg_id: &str) -> (r: Option<&CachedMessage>)
        ensures
            ({
                let i = find_session(self.view_sessions(), session_id@);
                match r {
                    Some(m) => i >= 0 && find_message(self.view_sessions()[i].1, ref_msg_id@) == Some(m.view()),
                    None => i < 0 || find_message(self.view_sessions()[i].1, ref_msg_id@) is None,
                }
            }),
    {
        let idx = self.find_index(session_id);
        proof {
            lemma_find_session(self.view_sessions(), session_id@);
        }
        match idx {
            None => None,
            Some(i) => {
                let msgs = &self.sessions[i].1;
                let ghost q = queue_view(msgs@);
                assert(self.view_sessions()[i as int].1 == q);
                assert(q.skip(0) =~= q);
                let mut j: usize = 0;
                while j < msgs.len()
                    invariant
                        j <= msgs@.len(),
                        q.len() == msgs@.len(),
                        q == queue_view(msgs@),
                        find_session(self.view_sessions(), session_id@) == i as int,
                        0 <= i < self.sessions@.len(),
                        self.view_sessions()[i as int].1 == q,
                        find_message(q, ref_msg_id@) == find_message(q.skip(j as int), ref_msg_id@),
                    decreases msgs.len() - j,
                {
                    assert(q.skip(j as int).drop_first() =~= q.skip(j + 1));
                    if str_eq(msgs[j].message_id.as_str(), ref_msg_id) {
                        assert(q.skip(j as int)[0] == q[j as int]);
                        return Some(&msgs[j]);
                    }
                    j = j + 1;
                }
                None
            },
        }
    }
}

proof fn lemma_prune_unique(s: Seq<SessionView>, max: nat)
    requires
        unique_sessions(s),
    ensures
        unique_sessions(prune(s, max)),
    decreases s.len(),
{
    if s.len() > max {
        lemma_victim_in_range(s);
        let v = victim(s);
        let t = s.remove(v);
        assert forall|i: int, j: int| 0 <= i < j < t.len() implies t[i].0 != t[j].0 by {
            let i2 = if i < v { i } else { i + 1 };
            let j2 = if j < v { j } else { j + 1 };
            assert(t[i] == s[i2] && t[j] == s[j2]);
        }
        lemma_prune_unique(t, max);
    }
}

} // verus!
