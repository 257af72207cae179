//! The subscription registry: the single source of truth for which
//! subscription ids are live, and for the shape of each id's callback
//! set.
//!
//! The registry is an association list with pairwise-distinct ids.  It
//! keeps insertion order, which fixes the order in which bulk cleanup
//! walks the live subscriptions.

use vstd::prelude::*;

verus! {

/// Which optional callbacks a subscription's caller supplied.  The data
/// callback always exists; this records whether the error callback and
/// the completion callback do.
#[derive(Debug, Clone, Copy, PartialEq, Eq, Structural)]
pub struct CallbackInfo {
    pub has_on_error: bool,
    pub has_on_complete: bool,
}

/// Some entry of `s` carries `id`.
pub open spec fn reg_has(s: Seq<(u64, CallbackInfo)>, id: u64) -> bool {
    exists|i: int| 0 <= i < s.len() && s[i].0 == id
}

/// No two entries of `s` carry the same id.
pub open spec fn reg_wf(s: Seq<(u64, CallbackInfo)>) -> bool {
    forall|i: int, j: int| 0 <= i < j < s.len() ==> s[i].0 != s[j].0
}

/// Index of the entry carrying `id`; meaningful only under `reg_has`.
pub open spec fn reg_index(s: Seq<(u64, CallbackInfo)>, id: u64) -> int {
    choose|i: int| 0 <= i < s.len() && s[i].0 == id
}

/// Callback shape recorded for `id`; meaningful only under `reg_has`.
pub open spec fn reg_info(s: Seq<(u64, CallbackInfo)>, id: u64) -> CallbackInfo {
    s[reg_index(s, id)].1
}

/// The list after registering `id`: an existing entry for `id` gives way,
/// and the new entry goes to the back.
pub open spec fn reg_insert(s: Seq<(u64, CallbackInfo)>, id: u64, info: CallbackInfo) -> Seq<
    (u64, CallbackInfo),
> {
    if reg_has(s, id) {
        s.remove(reg_index(s, id)).push((id, info))
    } else {
        s.push((id, info))
    }
}

/// The list after dropping `id`, if present.
pub open spec fn reg_remove(s: Seq<(u64, CallbackInfo)>, id: u64) -> Seq<(u64, CallbackInfo)> {
    if reg_has(s, id) {
        s.remove(reg_index(s, id))
    } else {
        s
    }
}

/// Under distinct ids, an entry's position pins the lookup result.
pub proof fn lemma_reg_at(s: Seq<(u64, CallbackInfo)>, id: u64, i: int)
    requires
        reg_wf(s),
        0 <= i < s.len(),
        s[i].0 == id,
    ensures
        reg_has(s, id),
        reg_index(s, id) == i,
        reg_info(s, id) == s[i].1,
{
    assert(reg_has(s, id));
    let j = reg_index(s, id);
    assert(0 <= j < s.len() && s[j].0 == id);
    if i < j {
        assert(s[i].0 != s[j].0);
    }
    if j < i {
        assert(s[j].0 != s[i].0);
    }
}

/// What registering does to membership and to the recorded shapes.
pub proof fn lemma_reg_insert_props(s: Seq<(u64, CallbackInfo)>, id: u64, info: CallbackInfo)
    requires
        reg_wf(s),
    ensures
        reg_wf(reg_insert(s, id, info)),
        forall|x: u64| reg_has(reg_insert(s, id, info), x) == (x == id || reg_has(s, x)),
        reg_info(reg_insert(s, id, info), id) == info,
        forall|x: u64|
            x != id && reg_has(s, x) ==> reg_info(reg_insert(s, id, info), x) == reg_info(s, x),
{
    let t = reg_insert(s, id, info);
    if reg_has(s, id) {
        let k = reg_index(s, id);
        let u = s.remove(k);
        assert forall|x: u64| reg_has(t, x) == (x == id || reg_has(s, x)) by {
            if reg_has(t, x) {
                let i = choose|i: int| 0 <= i < t.len() && t[i].0 == x;
                if i < u.len() {
                    if i < k {
                        assert(s[i].0 == x);
                    } else {
                        assert(s[i + 1].0 == x);
                    }
                }
            }
            if x == id {
                assert(t[t.len() - 1].0 == id);
            } else if reg_has(s, x) {
                let i = choose|i: int| 0 <= i < s.len() && s[i].0 == x;
                if i < k {
                    assert(t[i].0 == x);
                } else {
                    assert(i != k);
                    assert(t[i - 1].0 == x);
                }
            }
        }
        assert forall|i: int, j: int| 0 <= i < j < t.len() implies t[i].0 != t[j].0 by {
            let map_back = |i: int| if i < k { i } else { i + 1 };
            if j < t.len() - 1 {
                assert(t[i] == s[map_back(i)]);
                assert(t[j] == s[map_back(j)]);
            } else {
                assert(t[j].0 == id);
                assert(t[i] == s[map_back(i)]);
                assert(s[map_back(i)].0 != id) by {
                    if s[map_back(i)].0 == id {
                        assert(map_back(i) != k);
                    }
                }
            }
        }
        assert(reg_info(t, id) == info) by {
            let i = reg_index(t, id);
            assert(t[t.len() - 1].0 == id);
            if i < t.len() - 1 {
                if i < k {
                    assert(s[i].0 == id);
                    assert(i != k);
                } else {
                    assert(s[i + 1].0 == id);
                }
            }
        }
        assert forall|x: u64| x != id && reg_has(s, x) implies reg_info(t, x) == reg_info(s, x) by {
            let i = reg_index(s, x);
            assert(0 <= i < s.len() && s[i].0 == x);
            let i2 = if i < k { i } else { i - 1 };
            assert(t[i2].0 == x && t[i2].1 == s[i].1);
            let i3 = reg_index(t, x);
            assert(0 <= i3 < t.len() && t[i3].0 == x);
            assert(i3 == i2);
        }
    } else {
        assert forall|x: u64| reg_has(t, x) == (x == id || reg_has(s, x)) by {
            if reg_has(t, x) {
                let i = choose|i: int| 0 <= i < t.len() && t[i].0 == x;
                if i < s.len() {
                    assert(s[i].0 == x);
                }
            }
            if x == id {
                assert(t[t.len() - 1].0 == id);
            } else if reg_has(s, x) {
                let i = choose|i: int| 0 <= i < s.len() && s[i].0 == x;
                assert(t[i].0 == x);
            }
        }
        assert(reg_info(t, id) == info) by {
            let i = reg_index(t, id);
            if i < t.len() - 1 {
                assert(s[i].0 == id);
            }
        }
        assert forall|x: u64| x != id && reg_has(s, x) implies reg_info(t, x) == reg_info(s, x) by {
            let i = reg_index(s, x);
            assert(t[i].0 == x && t[i].1 == s[i].1);
            let i3 = reg_index(t, x);
            assert(0 <= i3 < t.len() && t[i3].0 == x);
            assert(i3 != t.len() - 1);
            assert(s[i3].0 == x);
            assert(i3 == i);
        }
    }
}

/// What dropping does to membership and to the recorded shapes.
pub proof fn lemma_reg_remove_props(s: Seq<(u64, CallbackInfo)>, id: u64)
    requires
        reg_wf(s),
    ensures
        reg_wf(reg_remove(s, id)),
        !reg_has(reg_remove(s, id), id),
        forall|x: u64| x != id ==> reg_has(reg_remove(s, id), x) == reg_has(s, x),
        forall|x: u64|
            x != id && reg_has(s, x) ==> reg_info(reg_remove(s, id), x) == reg_info(s, x),
{
    let t = reg_remove(s, id);
    if reg_has(s, id) {
        let k = reg_index(s, id);
        let map_back = |i: int| if i < k { i } else { i + 1 };
        assert forall|i: int, j: int| 0 <= i < j < t.len() implies t[i].0 != t[j].0 by {
            assert(t[i] == s[map_back(i)]);
            assert(t[j] == s[map_back(j)]);
        }
        assert(!reg_has(t, id)) by {
            if reg_has(t, id) {
                let i = choose|i: int| 0 <= i < t.len() && t[i].0 == id;
                assert(t[i] == s[map_back(i)]);
                assert(map_back(i) != k);
            }
        }
        assert forall|x: u64| x != id implies reg_has(t, x) == reg_has(s, x) by {
            if reg_has(t, x) {
                let i = choose|i: int| 0 <= i < t.len() && t[i].0 == x;
                assert(t[i] == s[map_back(i)]);
            }
            if reg_has(s, x) {
                let i = choose|i: int| 0 <= i < s.len() && s[i].0 == x;
                assert(i != k);
                if i < k {
                    assert(t[i].0 == x);
                } else {
                    assert(t[i - 1].0 == x);
                }
            }
        }
        assert forall|x: u64| x != id && reg_has(s, x) implies reg_info(t, x) == reg_info(s, x) by {
            let i = reg_index(s, x);
            assert(0 <= i < s.len() && s[i].0 == x);
            assert(i != k);
            let i2 = if i < k { i } else { i - 1 };
            assert(t[i2].0 == x && t[i2].1 == s[i].1);
            let i3 = reg_index(t, x);
            assert(0 <= i3 < t.len() && t[i3].0 == x);
            assert(i3 == i2);
        }
    }
}

/// Mapping from live subscription ids to the shape of their callback
/// sets.
pub struct Registry {
    entries: Vec<(u64, CallbackInfo)>,
}

impl View for Registry {
    type V = Seq<(u64, CallbackInfo)>;

    closed spec fn view(&self) -> Seq<(u64, CallbackInfo)> {
        self.entries@
    }
}

impl Registry {
    /// The registry's ids are pairwise distinct.
    pub open spec fn wf(self) -> bool {
        reg_wf(self@)
    }

    pub fn new() -> (r: Registry)
        ensures
            r@ == Seq::<(u64, CallbackInfo)>::empty(),
            r.wf(),
    {
        Registry { entries: Vec::new() }
    }

    pub fn len(&self) -> (r: usize)
        ensures
            r == self@.len(),
    {
        self.entries.len()
    }

    fn find(&self, id: u64) -> (r: Option<usize>)
        ensures
            match r {
                Some(i) => i < self@.len() && self@[i as int].0 == id,
                None => !reg_has(self@, id),
            },
    {
        let mut i: usize = 0;
        while i < self.entries.len()
            invariant
                i <= self@.len(),
                forall|j: int| 0 <= j < i ==> self@[j].0 != id,
            decreases self@.len() - i,
        {
            if self.entries[i].0 == id {
                return Some(i);
            }
            i = i + 1;
        }
        None
    }

    /// Whether `id` is live.
    pub fn contains(&self, id: u64) -> (r: bool)
        ensures
            r == reg_has(self@, id),
    {
        self.find(id).is_some()
    }

    /// The callback shape of `id`, if live.
    pub fn lookup(&self, id: u64) -> (r: Option<CallbackInfo>)
        requires
            self.wf(),
        ensures
            match r {
                Some(info) => reg_has(self@, id) && info == reg_info(self@, id),
                None => !reg_has(self@, id),
            },
    {
        match self.find(id) {
            Some(i) => {
                proof {
                    let k = reg_index(self@, id);
                    assert(0 <= k < self@.len() && self@[k].0 == id);
                    assert(k == i);
                }
                Some(self.entries[i].1)
            },
            None => None,
        }
    }

    /// Registers `id`; an entry already carrying `id` gives way.
    pub fn insert(&mut self, id: u64, info: CallbackInfo)
        requires
            old(self).wf(),
        ensures
            final(self)@ == reg_insert(old(self)@, id, info),
            final(self).wf(),
    {
        proof {
            lemma_reg_insert_props(self@, id, info);
        }
        match self.find(id) {
            Some(i) => {
                proof {
                    let k = reg_index(self@, id);
                    assert(0 <= k < self@.len() && self@[k].0 == id);
                    assert(k == i);
                }
                self.entries.remove(i);
                self.entries.push((id, info));
            },
            None => {
                self.entries.push((id, info));
            },
        }
    }

    /// Drops `id`, handing back its callback shape if it was live.
    pub fn remove(&mut self, id: u64) -> (r: Option<CallbackInfo>)
        requires
            old(self).wf(),
        ensures
            final(self)@ == reg_remove(old(self)@, id),
            final(self).wf(),
            match r {
                Some(info) => reg_has(old(self)@, id) && info == reg_info(old(self)@, id),
                None => !reg_has(old(self)@, id),
            },
    {
        proof {
            lemma_reg_remove_props(self@, id);
        }
        match self.find(id) {
            Some(i) => {
                proof {
                    let k = reg_index(self@, id);
                    assert(0 <= k < self@.len() && self@[k].0 == id);
                    assert(k == i);
                }
                let e = self.entries.remove(i);
                Some(e.1)
            },
            None => None,
        }
    }

    /// Hands out every entry, in registration order, and leaves the
    /// registry empty.
    pub fn drain(&mut self) -> (r: Vec<(u64, CallbackInfo)>)
        ensures
            r@ == old(self)@,
            final(self)@ == Seq::<(u64, CallbackInfo)>::empty(),
            final(self).wf(),
    {
        let mut out: Vec<(u64, CallbackInfo)> = Vec::new();
        core::mem::swap(&mut out, &mut self.entries);
        out
    }
}

} // verus!
