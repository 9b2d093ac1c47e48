use std::collections::HashMap;
use vstd::prelude::*;

use crate::lists::{
    contains_id, lemma_push_no_duplicates, lemma_without_no_duplicates, without, without_id,
};

verus! {

broadcast use vstd::std_specs::hash::group_hash_axioms;

/// The identities among `ids` that belong to authenticated users.
pub open spec fn positive_ids(ids: Set<i64>) -> Set<i64> {
    ids.filter(|id: i64| id > 0)
}

/// The abstract state of the connection registry: the live handles of each
/// identity present, and the connected-user counter.
pub struct RegistryModel {
    pub entries: Map<i64, Seq<u64>>,
    pub count: nat,
}

impl RegistryModel {
    /// The handles of `id`, empty when it is absent.
    pub open spec fn handles(self, id: i64) -> Seq<u64> {
        if self.entries.contains_key(id) {
            self.entries[id]
        } else {
            Seq::empty()
        }
    }

    /// Finitely many identities, each with at least one handle and no
    /// handle twice, and the counter equal to the number of positive
    /// identities present.
    pub open spec fn wf(self) -> bool {
        &&& self.entries.dom().finite()
        &&& forall|id: i64| #[trigger]
            self.entries.contains_key(id) ==> self.entries[id].len() > 0
                && self.entries[id].no_duplicates()
        &&& self.count == positive_ids(self.entries.dom()).len()
    }

    /// A first handle creates the identity's entry, counted when the
    /// identity is positive; a further handle is appended once.
    pub open spec fn register(self, id: i64, h: u64) -> RegistryModel {
        if !self.entries.contains_key(id) {
            RegistryModel {
                entries: self.entries.insert(id, seq![h]),
                count: if id > 0 {
                    self.count + 1
                } else {
                    self.count
                },
            }
        } else if self.entries[id].contains(h) {
            self
        } else {
            RegistryModel { entries: self.entries.insert(id, self.entries[id].push(h)), count: self.count }
        }
    }

    /// The handle leaves the identity's entry; an entry left empty is
    /// deleted, and uncounted when the identity is positive.
    pub open spec fn deregister(self, id: i64, h: u64) -> RegistryModel {
        if !self.entries.contains_key(id) {
            self
        } else if without(self.entries[id], h).len() == 0 {
            RegistryModel {
                entries: self.entries.remove(id),
                count: if id > 0 {
                    (self.count - 1) as nat
                } else {
                    self.count
                },
            }
        } else {
            RegistryModel {
                entries: self.entries.insert(id, without(self.entries[id], h)),
                count: self.count,
            }
        }
    }
}

/// Adding an identity to a finite set adds one positive identity exactly
/// when it is positive.
pub proof fn lemma_positive_insert(ids: Set<i64>, id: i64)
    requires
        ids.finite(),
        !ids.contains(id),
    ensures
        positive_ids(ids.insert(id)).finite(),
        positive_ids(ids.insert(id)).len() == positive_ids(ids).len() + if id > 0 {
            1int
        } else {
            0int
        },
{
    ids.lemma_len_filter(|x: i64| x > 0);
    ids.insert(id).lemma_len_filter(|x: i64| x > 0);
    if id > 0 {
        assert(positive_ids(ids.insert(id)) =~= positive_ids(ids).insert(id));
    } else {
        assert(positive_ids(ids.insert(id)) =~= positive_ids(ids));
    }
}

/// Removing a present identity removes one positive identity exactly when
/// it is positive.
pub proof fn lemma_positive_remove(ids: Set<i64>, id: i64)
    requires
        ids.finite(),
        ids.contains(id),
    ensures
        positive_ids(ids.remove(id)).len() + if id > 0 {
            1int
        } else {
            0int
        } == positive_ids(ids).len(),
{
    ids.lemma_len_filter(|x: i64| x > 0);
    ids.remove(id).lemma_len_filter(|x: i64| x > 0);
    if id > 0 {
        assert(positive_ids(ids.remove(id)) =~= positive_ids(ids).remove(id));
    } else {
        assert(positive_ids(ids.remove(id)) =~= positive_ids(ids));
    }
}

impl RegistryModel {
    /// Registering keeps the registry well formed.
    pub proof fn lemma_register_wf(self, id: i64, h: u64)
        requires
            self.wf(),
        ensures
            self.register(id, h).wf(),
    {
        let n = self.register(id, h);
        if !self.entries.contains_key(id) {
            lemma_positive_insert(self.entries.dom(), id);
            assert(n.entries.dom() =~= self.entries.dom().insert(id));
            assert(seq![h].no_duplicates());
        } else if !self.entries[id].contains(h) {
            assert(n.entries.dom() =~= self.entries.dom());
            lemma_push_no_duplicates(self.entries[id], h);
        }
    }

    /// Deregistering keeps the registry well formed.
    pub proof fn lemma_deregister_wf(self, id: i64, h: u64)
        requires
            self.wf(),
        ensures
            self.deregister(id, h).wf(),
    {
        let n = self.deregister(id, h);
        if self.entries.contains_key(id) {
            if without(self.entries[id], h).len() == 0 {
                lemma_positive_remove(self.entries.dom(), id);
                assert(n.entries.dom() =~= self.entries.dom().remove(id));
            } else {
                assert(n.entries.dom() =~= self.entries.dom());
                lemma_without_no_duplicates(self.entries[id], h);
            }
        }
    }
}


/// The connection registry: the live handles of each connected identity,
/// the number of authenticated identities connected, and the allocator of
/// identities for anonymous connections.
pub struct Users {
    entries: HashMap<i64, Vec<u64>>,
    connected: usize,
    next_anonymous_id: i64,
}

impl Users {
    pub closed spec fn view(&self) -> RegistryModel {
        RegistryModel {
            entries: self.entries@.map_values(|v: Vec<u64>| v@),
            count: self.connected as nat,
        }
    }

    /// The registry is well formed, the next anonymous identity is
    /// negative, and every identity present lies above it.
    pub closed spec fn wf(&self) -> bool {
        &&& self.view().wf()
        &&& self.next_anonymous_id < 0
        &&& forall|id: i64| #[trigger]
            self.entries@.contains_key(id) ==> id > self.next_anonymous_id
    }

    /// What a well-formed registry guarantees its callers: the abstract
    /// registry is well formed, and no identity present has been left for
    /// a later anonymous connection.
    pub proof fn lemma_view_wf(&self)
        requires
            self.wf(),
        ensures
            self.view().wf(),
            self.next_anonymous() < 0,
            forall|id: i64| #[trigger]
                self.view().entries.contains_key(id) ==> id > self.next_anonymous(),
    {
    }

    /// The next anonymous identity to hand out.
    pub fn next_anonymous_id(&self) -> (r: i64)
        ensures
            r == self.next_anonymous(),
    {
        self.next_anonymous_id
    }

    /// The next anonymous identity to hand out.
    pub closed spec fn next_anonymous(&self) -> int {
        self.next_anonymous_id as int
    }

    /// Whether every anonymous identity has been handed out.
    pub open spec fn anonymous_exhausted(&self) -> bool {
        self.next_anonymous() == i64::MIN
    }

    /// An empty registry with the counter at zero.
    pub fn new() -> (r: Users)
        ensures
            r.wf(),
            r.view().entries == Map::<i64, Seq<u64>>::empty(),
            r.view().count == 0,
            r.next_anonymous() == -1,
    {
        let r = Users { entries: HashMap::new(), connected: 0, next_anonymous_id: -1 };
        assert(r.view().entries =~= Map::<i64, Seq<u64>>::empty());
        assert(positive_ids(Set::<i64>::empty()) =~= Set::<i64>::empty());
        r
    }

    /// The number of distinct positive identities connected.
    pub fn connected_count(&self) -> (r: usize)
        ensures
            r == self.view().count,
    {
        self.connected
    }

    /// The live handles of `id`, in order of connection.
    pub fn handles_of(&self, id: i64) -> (r: Vec<u64>)
        ensures
            r@ == self.view().handles(id),
    {
        match self.entries.get(&id) {
            Some(v) => {
                let r = v.clone();
                assert(r@ =~= v@);
                r
            },
            None => Vec::new(),
        }
    }

    /// Hands out a negative identity. Identities are handed out in
    /// decreasing order from -1, so none is handed out twice; `None` once
    /// they are all used.
    pub fn allocate_anonymous_id(&mut self) -> (r: Option<i64>)
        requires
            old(self).wf(),
        ensures
            final(self).wf(),
            final(self).view() == old(self).view(),
            r is None <==> old(self).anonymous_exhausted(),
            match r {
                Some(id) => id < 0 && id == old(self).next_anonymous() && final(self).next_anonymous()
                    == id - 1,
                None => final(self).next_anonymous() == old(self).next_anonymous(),
            },
    {
        if self.next_anonymous_id == i64::MIN {
            return None;
        }
        let id = self.next_anonymous_id;
        self.next_anonymous_id = id - 1;
        Some(id)
    }

    /// Adds handle `h` to identity `id`, which is positive or an anonymous
    /// identity already handed out. Returns the new counter value when
    /// a positive identity saw its first connection, `None` otherwise.
    pub fn register(&mut self, id: i64, h: u64) -> (r: Option<usize>)
        requires
            old(self).wf(),
            id <= 0 || old(self).view().count < usize::MAX,
            id > old(self).next_anonymous(),
        ensures
            final(self).wf(),
            final(self).view() == old(self).view().register(id, h),
            final(self).next_anonymous() == old(self).next_anonymous(),
            r == if final(self).view().count != old(self).view().count {
                Some(final(self).view().count as usize)
            } else {
                None::<usize>
            },
            r matches Some(c) ==> c as nat == final(self).view().count,
    {
        let ghost before = self.view();
        proof {
            before.lemma_register_wf(id, h);
        }
        match self.entries.remove(&id) {
            None => {
                let v = vec![h];
                assert(v@ =~= seq![h]);
                self.entries.insert(id, v);
                assert(self.view().entries =~= before.register(id, h).entries);
                if id > 0 {
                    self.connected = self.connected + 1;
                    Some(self.connected)
                } else {
                    None
                }
            },
            Some(mut v) => {
                if !contains_id(&v, h) {
                    v.push(h);
                }
                self.entries.insert(id, v);
                assert(self.view().entries =~= before.register(id, h).entries);
                None
            },
        }
    }

    /// Removes handle `h` from identity `id`, deleting the entry once it
    /// holds no handle. Returns the new counter value when a positive
    /// identity lost its last connection, `None` otherwise.
    pub fn deregister(&mut self, id: i64, h: u64) -> (r: Option<usize>)
        requires
            old(self).wf(),
        ensures
            final(self).wf(),
            final(self).view() == old(self).view().deregister(id, h),
            final(self).next_anonymous() == old(self).next_anonymous(),
            r == if final(self).view().count != old(self).view().count {
                Some(final(self).view().count as usize)
            } else {
                None::<usize>
            },
            r matches Some(c) ==> c as nat == final(self).view().count,
    {
        let ghost before = self.view();
        proof {
            before.lemma_deregister_wf(id, h);
        }
        match self.entries.remove(&id) {
            None => {
                assert(self.view().entries =~= before.entries);
                None
            },
            Some(v) => {
                let rest = without_id(&v, h);
                if rest.len() == 0 {
                    assert(self.view().entries =~= before.deregister(id, h).entries);
                    proof {
                        lemma_positive_remove(before.entries.dom(), id);
                    }
                    if id > 0 {
                        self.connected = self.connected - 1;
                        Some(self.connected)
                    } else {
                        None
                    }
                } else {
                    self.entries.insert(id, rest);
                    assert(self.view().entries =~= before.deregister(id, h).entries);
                    None
                }
            },
        }
    }
}

} // verus!
