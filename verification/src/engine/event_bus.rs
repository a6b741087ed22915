//! The event bus's record of messages being handled, so that a message delivered
//! twice while its first delivery is still in the pipeline is handled once.
use vstd::prelude::*;

use crate::text::{str_eq, string_from};

verus! {

/// The ids of the messages in the pipeline, each once.
pub struct PendingMessages {
    pub ids: Vec<String>,
}

/// The set of the ids.
pub open spec fn id_set(ids: Seq<String>) -> Set<Seq<char>> {
    Set::new(|s: Seq<char>| exists|i: int| 0 <= i < ids.len() && ids[i]@ == s)
}

/// Whether a message is let into the pipeline while `pending` are in it.
pub open spec fn admitted(pending: Set<Seq<char>>, id: Seq<char>) -> bool {
    !pending.contains(id)
}

/// The messages in the pipeline after `id` is let in.
pub open spec fn after_begin(pending: Set<Seq<char>>, id: Seq<char>) -> Set<Seq<char>> {
    pending.insert(id)
}

/// The messages in the pipeline after `id` is finished.
pub open spec fn after_finish(pending: Set<Seq<char>>, id: Seq<char>) -> Set<Seq<char>> {
    pending.remove(id)
}

impl PendingMessages {
    /// The messages in the pipeline.
    pub open spec fn view(&self) -> Set<Seq<char>> {
        id_set(self.ids@)
    }

    /// No id twice.
    pub open spec fn wf(&self) -> bool {
        forall|i: int, j: int| 0 <= i < j < self.ids@.len() ==> self.ids@[i]@ != self.ids@[j]@
    }

    pub fn new() -> (r: PendingMessages)
        ensures
            r.wf(),
            r.view() == Set::<Seq<char>>::empty(),
    {
        let r = PendingMessages { ids: Vec::new() };
        assert(r.view() =~= Set::<Seq<char>>::empty());
        r
    }

    fn position(&self, id: &str) -> (r: Option<usize>)
        ensures
            match r {
                Some(i) => i < self.ids@.len() && self.ids@[i as int]@ == id@,
                None => !self.view().contains(id@),
            },
    {
        let mut i: usize = 0;
        while i < self.ids.len()
            invariant
                i <= self.ids@.len(),
                forall|j: int| 0 <= j < i ==> self.ids@[j]@ != id@,
            decreases self.ids.len() - i,
        {
            if str_eq(self.ids[i].as_str(), id) {
                return Some(i);
            }
            i = i + 1;
        }
        None
    }

    /// Marks `id` as in the pipeline. Returns false, changing nothing, when it
    /// already was.
    pub fn try_begin(&mut self, id: &str) -> (r: bool)
        requires
            old(self).wf(),
        ensures
            final(self).wf(),
            r == admitted(old(self).view(), id@),
            final(self).view() == after_begin(old(self).view(), id@),
    {
        match self.position(id) {
            Some(_) => {
                assert(self.view() =~= self.view().insert(id@));
                false
            },
            None => {
                let ghost before = self.view();
                self.ids.push(string_from(id));
                assert(self.view() =~= before.insert(id@)) by {
                    assert(self.ids@[self.ids@.len() - 1]@ == id@);
                    assert forall|s: Seq<char>| before.contains(s) implies self.view().contains(s) by {
                        let k = choose|k: int| 0 <= k < old(self).ids@.len() && old(self).ids@[k]@ == s;
                        assert(self.ids@[k] == old(self).ids@[k]);
                    }
                    assert forall|s: Seq<char>| self.view().contains(s) implies before.insert(id@).contains(s) by {
                        let k = choose|k: int| 0 <= k < self.ids@.len() && self.ids@[k]@ == s;
                        if k < old(self).ids@.len() {
                            assert(self.ids@[k] == old(self).ids@[k]);
                        }
                    }
                }
                true
            },
        }
    }

    /// Marks `id` as handled.
    pub fn finish(&mut self, id: &str)
        requires
            old(self).wf(),
        ensures
            final(self).wf(),
            final(self).view() == after_finish(old(self).view(), id@),
    {
        match self.position(id) {
            Some(i) => {
                let ghost before = self.ids@;
                self.ids.remove(i);
                assert(self.view() =~= id_set(before).remove(id@)) by {
                    assert forall|s: Seq<char>| self.view().contains(s) implies id_set(before).remove(id@).contains(s) by {
                        let k = choose|k: int| 0 <= k < self.ids@.len() && self.ids@[k]@ == s;
                        if k < i {
                            assert(self.ids@[k] == before[k]);
                        } else {
                            assert(self.ids@[k] == before[k + 1]);
                        }
                    }
                    assert forall|s: Seq<char>| id_set(before).remove(id@).contains(s) implies self.view().contains(s) by {
                        let k = choose|k: int| 0 <= k < before.len() && before[k]@ == s;
                        if k < i {
                            assert(self.ids@[k] == before[k]);
                        } else {
                            assert(k != i);
                            assert(self.ids@[k - 1] == before[k]);
                        }
                    }
                }
            },
            None => {
                assert(self.view() =~= self.view().remove(id@));
            },
        }
    }
}

/// Law: a message that is in the pipeline is not let in again until it is
/// finished, and after it is finished it is let in again.
/// Other messages are let in or not as before.
pub proof fn lemma_pending_dedup(p: Set<Seq<char>>, id: Seq<char>, other: Seq<char>)
    ensures
        !admitted(after_begin(p, id), id),
        admitted(after_finish(after_begin(p, id), id), id),
        other != id ==> admitted(after_begin(p, id), other) == admitted(p, other),
        other != id ==> admitted(after_finish(p, id), other) == admitted(p, other),
{
}

} // verus!
