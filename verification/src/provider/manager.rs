//! The registry of provider instances and the one in use.
use vstd::prelude::*;

use crate::text::{push_str, str_eq, string_from};
use crate::utils::error::AstrBotError;

verus! {

/// Provider instances by id, in registration order, and the id of the one in use.
pub struct ProviderManager<P> {
    pub inst_map: Vec<(String, P)>,
    pub default_provider_id: Option<String>,
}

/// The index of `id` among `ids`, or -1.
pub open spec fn find_id(ids: Seq<Seq<char>>, id: Seq<char>) -> int
    decreases ids.len(),
{
    if ids.len() == 0 {
        -1
    } else if ids[0] == id {
        0
    } else {
        let r = find_id(ids.drop_first(), id);
        if r < 0 {
            -1
        } else {
            r + 1
        }
    }
}

/// The first index of `id` is in range and holds `id`; before it, no `id`.
pub proof fn lemma_find_id(ids: Seq<Seq<char>>, id: Seq<char>)
    ensures
        -1 <= find_id(ids, id) < ids.len(),
        find_id(ids, id) >= 0 ==> ids[find_id(ids, id)] == id,
        find_id(ids, id) >= 0 ==> forall|j: int| 0 <= j < find_id(ids, id) ==> ids[j] != id,
        find_id(ids, id) < 0 ==> forall|j: int| 0 <= j < ids.len() ==> ids[j] != id,
        find_id(ids, id) < 0 <==> !ids.contains(id),
    decreases ids.len(),
{
    if ids.len() > 0 && ids[0] != id {
        lemma_find_id(ids.drop_first(), id);
        assert forall|j: int| 1 <= j < ids.len() implies ids[j] == ids.drop_first()[j - 1] by {}
        if ids.contains(id) {
            let j = choose|j: int| 0 <= j < ids.len() && ids[j] == id;
            assert(ids.drop_first()[j - 1] == id);
        }
    }
    if ids.len() > 0 && ids[0] == id {
        assert(ids.contains(id));
    }
}

/// Looking `y` up in `ids` with `x` appended finds what it found before, else `x`'s
/// new place when `y` is `x`.
pub proof fn lemma_find_push(ids: Seq<Seq<char>>, x: Seq<char>, y: Seq<char>)
    ensures
        find_id(ids.push(x), y) == (if find_id(ids, y) >= 0 {
            find_id(ids, y)
        } else if y == x {
            ids.len() as int
        } else {
            -1
        }),
    decreases ids.len(),
{
    if ids.len() > 0 {
        assert(ids.push(x)[0] == ids[0]);
        assert(ids.push(x).drop_first() =~= ids.drop_first().push(x));
        lemma_find_push(ids.drop_first(), x, y);
    } else {
        assert(ids.push(x)[0] == x);
        assert(ids.push(x).drop_first() =~= Seq::<Seq<char>>::empty());
        assert(find_id(Seq::<Seq<char>>::empty(), y) == -1);
    }
}

/// Looking `y` up after the first `x` (at `i`) is removed from `ids`: what came
/// before `i` stays, what came after moves down one, and `x` itself is gone when
/// it occurred once.
pub proof fn lemma_find_remove(ids: Seq<Seq<char>>, i: int, y: Seq<char>)
    requires
        0 <= i < ids.len(),
        find_id(ids, ids[i]) == i,
    ensures
        y != ids[i] ==> find_id(ids.remove(i), y) == (if find_id(ids, y) < 0 {
            -1
        } else if find_id(ids, y) < i {
            find_id(ids, y)
        } else {
            find_id(ids, y) - 1
        }),
        (forall|a: int, b: int| 0 <= a < b < ids.len() ==> ids[a] != ids[b]) ==> find_id(ids.remove(i), ids[i]) < 0,
    decreases ids.len(),
{
    lemma_find_id(ids, y);
    lemma_find_id(ids.remove(i), y);
    lemma_find_id(ids.remove(i), ids[i]);
    if y != ids[i] {
        let j = find_id(ids, y);
        let k = find_id(ids.remove(i), y);
        if j >= 0 {
            let jj = if j < i { j } else { j - 1 };
            assert(ids.remove(i)[jj] == y);
            assert forall|t: int| 0 <= t < jj implies ids.remove(i)[t] != y by {
                if t < i {
                    assert(ids.remove(i)[t] == ids[t]);
                } else {
                    assert(ids.remove(i)[t] == ids[t + 1]);
                }
            }
            assert(k == jj) by {
                if k >= 0 && k < jj {
                    assert(ids.remove(i)[k] == y);
                }
                if k < 0 {
                    assert(ids.remove(i)[jj] == y);
                }
            }
        } else {
            if k >= 0 {
                let kk = if k < i { k } else { k + 1 };
                assert(ids[kk] == ids.remove(i)[k]);
            }
        }
    }
    if forall|a: int, b: int| 0 <= a < b < ids.len() ==> ids[a] != ids[b] {
        let k = find_id(ids.remove(i), ids[i]);
        if k >= 0 {
            let kk = if k < i { k } else { k + 1 };
            assert(ids[kk] == ids.remove(i)[k]);
            assert(kk != i);
        }
    }
}

impl<P> ProviderManager<P> {
    /// The ids of the registered providers, in order.
    pub open spec fn ids(&self) -> Seq<Seq<char>> {
        Seq::new(self.inst_map@.len(), |i: int| self.inst_map@[i].0@)
    }

    /// The id of the provider in use.
    pub open spec fn default_id(&self) -> Option<Seq<char>> {
        match self.default_provider_id {
            Some(d) => Some(d@),
            None => None,
        }
    }

    /// The provider registered under `id`.
    pub open spec fn lookup(&self, id: Seq<char>) -> Option<P> {
        let i = find_id(self.ids(), id);
        if i >= 0 {
            Some(self.inst_map@[i].1)
        } else {
            None
        }
    }

    /// Whether a provider is in use: the id in use names a registered provider.
    pub open spec fn in_use(&self) -> bool {
        self.default_id() matches Some(d) && find_id(self.ids(), d) >= 0
    }

    /// No id twice; the provider in use is registered; and there is one in use
    /// whenever any is registered.
    pub open spec fn wf(&self) -> bool {
        &&& forall|i: int, j: int| 0 <= i < j < self.ids().len() ==> self.ids()[i] != self.ids()[j]
        &&& match self.default_id() {
            Some(d) => self.ids().contains(d),
            None => self.ids().len() == 0,
        }
    }

    pub fn new() -> (r: ProviderManager<P>)
        ensures
            r.inst_map@.len() == 0,
            r.default_provider_id is None,
            r.wf(),
    {
        ProviderManager { inst_map: Vec::new(), default_provider_id: None }
    }

    fn index_of(&self, id: &str) -> (r: Option<usize>)
        ensures
            match r {
                Some(i) => i < self.inst_map@.len() && find_id(self.ids(), id@) == i as int,
                None => find_id(self.ids(), id@) < 0,
            },
    {
        proof {
            lemma_find_id(self.ids(), id@);
        }
        let mut i: usize = 0;
        while i < self.inst_map.len()
            invariant
                i <= self.inst_map@.len(),
                -1 <= find_id(self.ids(), id@) < self.ids().len(),
                find_id(self.ids(), id@) >= 0 ==> self.ids()[find_id(self.ids(), id@)] == id@,
                find_id(self.ids(), id@) >= 0 ==> forall|j: int| 0 <= j < find_id(self.ids(), id@) ==> self.ids()[j] != id@,
                find_id(self.ids(), id@) < 0 ==> forall|j: int| 0 <= j < self.ids().len() ==> self.ids()[j] != id@,
                forall|j: int| 0 <= j < i ==> self.ids()[j] != id@,
            decreases self.inst_map.len() - i,
        {
            if str_eq(self.inst_map[i].0.as_str(), id) {
                assert(self.ids()[i as int] == id@);
                return Some(i);
            }
            i = i + 1;
        }
        None
    }

    /// Registers `provider` under `id`, replacing one registered under the same id;
    /// the first provider registered becomes the one in use.
    pub fn register(&mut self, id: String, provider: P)
        ensures
            ({
                let i = find_id(old(self).ids(), id@);
                &&& final(self).ids() == if i >= 0 {
                    old(self).ids()
                } else {
                    old(self).ids().push(id@)
                }
                &&& i >= 0 ==> final(self).inst_map@[i].1 == provider
                &&& i >= 0 ==> forall|j: int| 0 <= j < old(self).inst_map@.len() && j != i ==> final(self).inst_map@[j] == old(self).inst_map@[j]
                &&& i < 0 ==> final(self).inst_map@ == old(self).inst_map@.push(final(self).inst_map@.last())
                    && final(self).inst_map@.last().1 == provider
                &&& final(self).default_id() == if old(self).inst_map@.len() == 0 {
                    Some(id@)
                } else {
                    old(self).default_id()
                }
            }),
            final(self).lookup(id@) == Some(provider),
            forall|other: Seq<char>| other != id@ ==> final(self).lookup(other) == old(self).lookup(other),
            old(self).wf() ==> final(self).wf(),
    {
        proof {
            lemma_find_id(self.ids(), id@);
        }
        let was_empty = self.inst_map.len() == 0;
        let ghost old_ids = self.ids();
        if was_empty {
            self.default_provider_id = Some(id.clone());
        }
        match self.index_of(id.as_str()) {
            Some(i) => {
                self.inst_map.set(i, (id, provider));
                assert(self.ids() =~= old_ids);
                proof {
                    assert forall|other: Seq<char>| other != old_ids[i as int] implies self.lookup(other) == old(self).lookup(other) by {
                        lemma_find_id(old_ids, other);
                        if find_id(old_ids, other) >= 0 {
                            assert(find_id(old_ids, other) != i);
                        }
                    }
                }
            },
            None => {
                let ghost idv = id@;
                self.inst_map.push((id, provider));
                assert(self.ids() =~= old_ids.push(idv));
                proof {
                    lemma_find_push(old_ids, idv, idv);
                    assert forall|other: Seq<char>| other != idv implies self.lookup(other) == old(self).lookup(other) by {
                        lemma_find_push(old_ids, idv, other);
                        lemma_find_id(old_ids, other);
                        if find_id(old_ids, other) >= 0 {
                            assert(self.inst_map@[find_id(old_ids, other)] == old(self).inst_map@[find_id(old_ids, other)]);
                        }
                    }
                }
                proof {
                    if old(self).wf() {
                        assert(self.ids().contains(idv)) by {
                            assert(self.ids()[old_ids.len() as int] == idv);
                        }
                        assert forall|d: Seq<char>| old_ids.contains(d) implies self.ids().contains(d) by {
                            let j = choose|j: int| 0 <= j < old_ids.len() && old_ids[j] == d;
                            assert(self.ids()[j] == d);
                        }
                    }
                }
            },
        }
    }

    /// The provider in use.
    pub fn get_using_provider(&self) -> (r: Option<&P>)
        ensures
            match r {
                Some(p) => self.default_id() matches Some(d) && find_id(self.ids(), d) >= 0
                    && *p == self.inst_map@[find_id(self.ids(), d)].1,
                None => self.default_id() is None || (self.default_id() matches Some(d) && find_id(self.ids(), d) < 0),
            },
    {
        match &self.default_provider_id {
            Some(d) => match self.index_of(d.as_str()) {
                Some(i) => Some(&self.inst_map[i].1),
                None => None,
            },
            None => None,
        }
    }

    /// The provider registered under `id`.
    pub fn get_provider_by_id(&self, id: &str) -> (r: Option<&P>)
        ensures
            match r {
                Some(p) => find_id(self.ids(), id@) >= 0 && *p == self.inst_map@[find_id(self.ids(), id@)].1
                    && self.lookup(id@) == Some(*p),
                None => find_id(self.ids(), id@) < 0 && self.lookup(id@) is None,
            },
    {
        match self.index_of(id) {
            Some(i) => Some(&self.inst_map[i].1),
            None => None,
        }
    }

    /// Makes the provider registered under `id` the one in use; an unknown id is
    /// refused and changes nothing.
    pub fn set_default_provider(&mut self, id: &str) -> (r: Result<(), AstrBotError>)
        ensures
            final(self).inst_map == old(self).inst_map,
            old(self).ids().contains(id@) ==> r is Ok && final(self).default_id() == Some(id@),
            !old(self).ids().contains(id@) ==> final(self).default_provider_id == old(self).default_provider_id
                && (r matches Err(AstrBotError::NotFound(m)) && m@ == "Provider "@ + id@ + " not found"@),
            old(self).wf() ==> final(self).wf(),
    {
        proof {
            lemma_find_id(self.ids(), id@);
        }
        match self.index_of(id) {
            Some(i) => {
                self.default_provider_id = Some(string_from(id));
                Ok(())
            },
            None => {
                let mut m = string_from("Provider ");
                push_str(&mut m, id);
                push_str(&mut m, " not found");
                Err(AstrBotError::NotFound(m))
            },
        }
    }

    /// The registered ids, each with the kind `chat_completion`.
    pub fn list_providers(&self) -> (r: Vec<(String, String)>)
        ensures
            r@.len() == self.inst_map@.len(),
            forall|i: int| 0 <= i < r@.len() ==> (#[trigger] r@[i]).0@ == self.ids()[i] && r@[i].1@ == "chat_completion"@,
    {
        let mut out: Vec<(String, String)> = Vec::new();
        let mut i: usize = 0;
        while i < self.inst_map.len()
            invariant
                i <= self.inst_map@.len(),
                out@.len() == i,
                forall|k: int| 0 <= k < i ==> (#[trigger] out@[k]).0@ == self.ids()[k] && out@[k].1@ == "chat_completion"@,
            decreases self.inst_map.len() - i,
        {
            out.push((self.inst_map[i].0.clone(), string_from("chat_completion")));
            i = i + 1;
        }
        out
    }

    /// Unregisters `id`. When it was the one in use, the first remaining provider
    /// (if any) takes its place.
    pub fn remove(&mut self, id: &str)
        ensures
            ({
                let i = find_id(old(self).ids(), id@);
                &&& final(self).ids() == if i >= 0 {
                    old(self).ids().remove(i)
                } else {
                    old(self).ids()
                }
                &&& final(self).inst_map@ == if i >= 0 {
                    old(self).inst_map@.remove(i)
                } else {
                    old(self).inst_map@
                }
                &&& final(self).default_id() == if old(self).default_id() == Some(id@) {
                    if final(self).ids().len() > 0 {
                        Some(final(self).ids()[0])
                    } else {
                        None
                    }
                } else {
                    old(self).default_id()
                }
            }),
            old(self).wf() ==> final(self).lookup(id@) is None,
            forall|other: Seq<char>| other != id@ ==> final(self).lookup(other) == old(self).lookup(other),
            old(self).wf() ==> final(self).wf(),
    {
        proof {
            lemma_find_id(self.ids(), id@);
        }
        let ghost old_ids = self.ids();
        match self.index_of(id) {
            Some(i) => {
                self.inst_map.remove(i);
                assert(self.ids() =~= old_ids.remove(i as int));
                proof {
                    lemma_find_remove(old_ids, i as int, id@);
                    assert forall|other: Seq<char>| other != id@ implies self.lookup(other) == old(self).lookup(other) by {
                        lemma_find_remove(old_ids, i as int, other);
                        lemma_find_id(old_ids, other);
                        let j = find_id(old_ids, other);
                        if j >= 0 {
                            if j < i {
                                assert(self.inst_map@[j] == old(self).inst_map@[j]);
                            } else {
                                assert(self.inst_map@[j - 1] == old(self).inst_map@[j]);
                            }
                        }
                    }
                }
            },
            None => {},
        }
        let is_default = match &self.default_provider_id {
            Some(d) => str_eq(d.as_str(), id),
            None => false,
        };
        if is_default {
            if self.inst_map.len() > 0 {
                self.default_provider_id = Some(self.inst_map[0].0.clone());
            } else {
                self.default_provider_id = None;
            }
        }
        proof {
            if old(self).wf() {
                let i = find_id(old_ids, id@);
                assert forall|a: int, b: int| 0 <= a < b < self.ids().len() implies self.ids()[a] != self.ids()[b] by {
                    if i >= 0 {
                        let a2 = if a < i { a } else { a + 1 };
                        let b2 = if b < i { b } else { b + 1 };
                        assert(self.ids()[a] == old_ids[a2]);
                        assert(self.ids()[b] == old_ids[b2]);
                    }
                }
                if !is_default {
                    if let Some(d) = old(self).default_id() {
                        let j = choose|j: int| 0 <= j < old_ids.len() && old_ids[j] == d;
                        if i >= 0 {
                            assert(j != i);
                            let j2 = if j < i { j } else { j - 1 };
                            assert(self.ids()[j2] == d);
                        } else {
                            assert(self.ids()[j] == d);
                        }
                    } else {
                        assert(self.ids().len() == 0);
                    }
                } else {
                    if self.ids().len() > 0 {
                        assert(self.ids().contains(self.ids()[0]));
                    }
                }
            }
        }
    }

    /// Unregisters every provider.
    pub fn clear(&mut self)
        ensures
            final(self).inst_map@.len() == 0,
            final(self).default_provider_id is None,
            final(self).wf(),
    {
        self.inst_map.clear();
        self.default_provider_id = None;
        assert(self.ids() =~= Seq::<Seq<char>>::empty());
    }

    pub fn len(&self) -> (r: usize)
        ensures
            r == self.inst_map@.len(),
    {
        self.inst_map.len()
    }

    pub fn is_empty(&self) -> (r: bool)
        ensures
            r == (self.inst_map@.len() == 0),
    {
        self.inst_map.len() == 0
    }
}

impl<P> Default for ProviderManager<P> {
    fn default() -> (r: ProviderManager<P>)
        ensures
            r.inst_map@.len() == 0,
            r.default_provider_id is None,
            r.wf(),
    {
        ProviderManager::new()
    }
}

/// Law: in a well-formed registry there is a provider in use exactly when some
/// provider is registered, and it is one of the registered ones.
pub proof fn lemma_provider_in_use<P>(m: ProviderManager<P>)
    requires
        m.wf(),
    ensures
        m.in_use() <==> m.ids().len() > 0,
{
    if let Some(d) = m.default_id() {
        lemma_find_id(m.ids(), d);
    }
}

} // verus!
