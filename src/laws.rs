use vstd::prelude::*;

use crate::events::RealTimeEvent;
use crate::lists::{lemma_listed_once, lemma_without_contains, listed_once, without};
use crate::registry::RegistryModel;
use crate::tracker::TableModel;

verus! {

/// Subscribing a live handle to a key puts it in that key's list exactly
/// once, so a following `notify` reaches it once; subscribing it a second
/// time changes nothing, so it is still reached once.
pub proof fn law_subscribe_then_notify(m: TableModel, k: RealTimeEvent, h: u64)
    requires
        m.wf(),
        m.is_live(h),
    ensures
        listed_once(m.subscribe(k, h).list(k), h),
        m.subscribe(k, h).subscribe(k, h) == m.subscribe(k, h),
{
    m.lemma_subscribe_wf(k, h);
    let n = m.subscribe(k, h);
    assert(n.has_subscribed(h, k));
    lemma_listed_once(n.list(k), h);
}

/// After subscribing and then unsubscribing a handle, a `notify` on that
/// key does not reach it.
pub proof fn law_unsubscribe_then_notify(m: TableModel, k: RealTimeEvent, h: u64)
    requires
        m.wf(),
    ensures
        !m.subscribe(k, h).unsubscribe(k, h).list(k).contains(h),
{
    m.lemma_subscribe_wf(k, h);
    let n = m.subscribe(k, h);
    assert(n.unsubscribe(k, h).list(k) == without(n.list(k), h));
    lemma_without_contains(n.list(k), h, h);
}

/// Once a handle is torn down no key's list holds it, subscribing it again
/// has no effect, and its identity's entry no longer holds it; the entry is
/// gone when that was its last handle.
pub proof fn law_disconnect_complete(
    t: TableModel,
    r: RegistryModel,
    id: i64,
    h: u64,
    k: RealTimeEvent,
)
    requires
        t.wf(),
        r.wf(),
    ensures
        !t.close(h).list(k).contains(h),
        t.close(h).subscribe(k, h) == t.close(h),
        !r.deregister(id, h).handles(id).contains(h),
        r.handles(id) == seq![h] ==> !r.deregister(id, h).entries.contains_key(id),
{
    let c = t.close(h);
    lemma_without_contains(t.list(k), h, h);
    if without(t.list(k), h).len() == 0 {
        assert(c.list(k) =~= Seq::<u64>::empty());
    } else {
        assert(c.list(k) == without(t.list(k), h));
    }
    if r.entries.contains_key(id) {
        lemma_without_contains(r.entries[id], h, h);
        if r.handles(id) == seq![h] {
            lemma_without_single(h);
        }
    }
}

proof fn lemma_without_single(h: u64)
    ensures
        without(seq![h], h).len() == 0,
{
    assert(seq![h].drop_last() =~= Seq::<u64>::empty());
    assert(without(seq![h], h) == without(Seq::<u64>::empty(), h));
}

/// Registers the identities of `ids` in turn, the i-th with handle `hs[i]`.
pub open spec fn register_each(r: RegistryModel, ids: Seq<i64>, hs: Seq<u64>) -> RegistryModel
    decreases ids.len(),
{
    if ids.len() == 0 || hs.len() == 0 {
        r
    } else {
        register_each(r, ids.drop_last(), hs.drop_last()).register(ids.last(), hs.last())
    }
}

/// The empty registry.
pub open spec fn empty_registry() -> RegistryModel {
    RegistryModel { entries: Map::empty(), count: 0 }
}

/// Connecting N distinct positive identities, one handle each, to an empty
/// registry leaves the counter at N.
pub proof fn law_count_distinct_identities(ids: Seq<i64>, hs: Seq<u64>)
    requires
        ids.no_duplicates(),
        ids.len() == hs.len(),
        forall|i: int| 0 <= i < ids.len() ==> ids[i] > 0,
    ensures
        register_each(empty_registry(), ids, hs).count == ids.len(),
    decreases ids.len(),
{
    lemma_register_each(ids, hs);
}

proof fn lemma_register_each(ids: Seq<i64>, hs: Seq<u64>)
    requires
        ids.no_duplicates(),
        ids.len() == hs.len(),
        forall|i: int| 0 <= i < ids.len() ==> ids[i] > 0,
    ensures
        register_each(empty_registry(), ids, hs).count == ids.len(),
        register_each(empty_registry(), ids, hs).wf(),
        forall|id: i64| #[trigger]
            register_each(empty_registry(), ids, hs).entries.contains_key(id) <==> ids.contains(id),
    decreases ids.len(),
{
    let e = empty_registry();
    if ids.len() == 0 {
        lemma_empty_registry_wf();
    } else {
        let d = ids.drop_last();
        assert(d.no_duplicates()) by {
            assert forall|i: int, j: int| 0 <= i < d.len() && 0 <= j < d.len() && i != j implies d[i]
                != d[j] by {
                assert(ids[i] == d[i] && ids[j] == d[j]);
            }
        }
        lemma_register_each(d, hs.drop_last());
        let prev = register_each(e, d, hs.drop_last());
        prev.lemma_register_wf(ids.last(), hs.last());
        assert(!d.contains(ids.last())) by {
            if d.contains(ids.last()) {
                let i = choose|i: int| 0 <= i < d.len() && d[i] == ids.last();
                assert(ids[i] == ids[ids.len() - 1]);
            }
        }
        assert(ids.last() > 0);
        assert forall|id: i64| #[trigger]
            register_each(e, ids, hs).entries.contains_key(id) <==> ids.contains(id) by {
            assert(ids =~= d.push(ids.last()));
            if ids.contains(id) && id != ids.last() {
                let i = choose|i: int| 0 <= i < ids.len() && ids[i] == id;
                assert(d[i] == id);
            }
            if d.contains(id) {
                let i = choose|i: int| 0 <= i < d.len() && d[i] == id;
                assert(ids[i] == id);
            }
        }
    }
}

proof fn lemma_empty_registry_wf()
    ensures
        empty_registry().wf(),
{
    assert(empty_registry().entries.dom() =~= Set::<i64>::empty());
    assert(crate::registry::positive_ids(Set::<i64>::empty()) =~= Set::<i64>::empty());
}

/// The counter moves only when an identity appears or disappears: a second
/// handle of a present identity, or the removal of one of several handles,
/// leaves it as it is; removing the last handle of a positive identity
/// takes one off; anonymous identities never move it.
pub proof fn law_counter(r: RegistryModel, id: i64, h: u64)
    requires
        r.wf(),
    ensures
        r.entries.contains_key(id) ==> r.register(id, h).count == r.count,
        r.handles(id).len() >= 2 ==> r.deregister(id, h).count == r.count,
        id > 0 && r.handles(id) == seq![h] ==> r.deregister(id, h).count + 1 == r.count,
        id > 0 && !r.entries.contains_key(id) ==> r.register(id, h).count == r.count + 1,
        id < 0 ==> r.register(id, h).count == r.count && r.deregister(id, h).count == r.count,
{
    if r.handles(id).len() >= 2 {
        let s = r.entries[id];
        let other = if s[0] != h {
            s[0]
        } else {
            s[1]
        };
        assert(s[0] != s[1]);
        assert(s.contains(other));
        lemma_without_contains(s, h, other);
    }
    if id > 0 && r.handles(id) == seq![h] {
        lemma_without_single(h);
        crate::registry::lemma_positive_remove(r.entries.dom(), id);
    }
}

} // verus!
