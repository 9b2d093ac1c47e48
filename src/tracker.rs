use std::collections::HashMap;
use vstd::prelude::*;

use crate::events::{Delivery, RealTimeEvent};
use crate::lists::{
    lemma_listed_once, lemma_push_contains, lemma_push_no_duplicates, listed_once, lemma_without_absent, lemma_without_contains,
    lemma_without_no_duplicates, lemma_without_take, without, without_id,
};

verus! {

broadcast use vstd::std_specs::hash::group_hash_axioms;

/// The abstract state of the subscription table: for each event key the
/// ordered list of subscribed handles (keys with no subscriber are absent),
/// and for each live handle the set of keys it is subscribed to.
pub struct TableModel {
    pub subscribers: Map<RealTimeEvent, Seq<u64>>,
    pub subscriptions: Map<u64, Set<RealTimeEvent>>,
}

/// `m` with the list of `k` set to `s`; an empty list removes the key.
pub open spec fn with_list(m: Map<RealTimeEvent, Seq<u64>>, k: RealTimeEvent, s: Seq<u64>) -> Map<
    RealTimeEvent,
    Seq<u64>,
> {
    if s.len() == 0 {
        m.remove(k)
    } else {
        m.insert(k, s)
    }
}

impl TableModel {
    /// The handles subscribed to `k`, in order of subscription.
    pub open spec fn list(self, k: RealTimeEvent) -> Seq<u64> {
        if self.subscribers.contains_key(k) {
            self.subscribers[k]
        } else {
            Seq::empty()
        }
    }

    /// Whether `h` is a connection that has been opened and not yet closed.
    pub open spec fn is_live(self, h: u64) -> bool {
        self.subscriptions.contains_key(h)
    }

    /// Whether `h` is live and subscribed to `k` in its own set.
    pub open spec fn has_subscribed(self, h: u64, k: RealTimeEvent) -> bool {
        self.subscriptions.contains_key(h) && self.subscriptions[h].contains(k)
    }

    /// Lists are never empty and never repeat a handle, and a handle stands
    /// in the list of a key exactly when that key is in the handle's own set.
    pub open spec fn wf(self) -> bool {
        &&& forall|k: RealTimeEvent| #[trigger]
            self.subscribers.contains_key(k) ==> self.subscribers[k].len() > 0
        &&& forall|k: RealTimeEvent| #[trigger] self.list(k).no_duplicates()
        &&& forall|k: RealTimeEvent, h: u64| #[trigger]
            self.list(k).contains(h) <==> self.has_subscribed(h, k)
    }

    /// A new connection, subscribed to nothing.
    pub open spec fn open(self, h: u64) -> TableModel {
        TableModel {
            subscribers: self.subscribers,
            subscriptions: self.subscriptions.insert(h, Set::empty()),
        }
    }

    /// Subscribing a live handle to a key it does not have yet appends it
    /// to that key's list; any other call changes nothing.
    pub open spec fn subscribe(self, k: RealTimeEvent, h: u64) -> TableModel {
        if self.is_live(h) && !self.subscriptions[h].contains(k) {
            TableModel {
                subscribers: self.subscribers.insert(k, self.list(k).push(h)),
                subscriptions: self.subscriptions.insert(h, self.subscriptions[h].insert(k)),
            }
        } else {
            self
        }
    }

    /// The key leaves the handle's own set and the handle leaves the key's
    /// list; a list left empty is removed.
    pub open spec fn unsubscribe(self, k: RealTimeEvent, h: u64) -> TableModel {
        TableModel {
            subscribers: with_list(self.subscribers, k, without(self.list(k), h)),
            subscriptions: if self.is_live(h) {
                self.subscriptions.insert(h, self.subscriptions[h].remove(k))
            } else {
                self.subscriptions
            },
        }
    }

    /// The handle leaves every list and is no longer live.
    pub open spec fn close(self, h: u64) -> TableModel {
        TableModel {
            subscribers: Map::new(
                |k: RealTimeEvent| without(self.list(k), h).len() > 0,
                |k: RealTimeEvent| without(self.list(k), h),
            ),
            subscriptions: self.subscriptions.remove(h),
        }
    }
}

/// A copy of `v` without the event `e`.
pub fn without_event(v: &Vec<RealTimeEvent>, e: RealTimeEvent) -> (r: Vec<RealTimeEvent>)
    ensures
        r@ == without(v@, e),
{
    let mut r: Vec<RealTimeEvent> = Vec::new();
    let mut i: usize = 0;
    while i < v.len()
        invariant
            i <= v.len(),
            r@ == without(v@.take(i as int), e),
        decreases v.len() - i,
    {
        proof {
            lemma_without_take(v@, e, i as int);
        }
        if v[i] != e {
            r.push(v[i]);
        }
        i += 1;
    }
    assert(v@.take(v.len() as int) =~= v@);
    r
}

impl TableModel {
    /// Opening a handle that is not live keeps the table well formed.
    pub proof fn lemma_open_wf(self, h: u64)
        requires
            self.wf(),
            !self.is_live(h),
        ensures
            self.open(h).wf(),
    {
        let n = self.open(h);
        assert forall|k: RealTimeEvent, x: u64| #[trigger]
            n.list(k).contains(x) <==> n.has_subscribed(x, k) by {
            assert(n.list(k) == self.list(k));
            if x == h {
                assert(!self.has_subscribed(h, k));
            }
        }
        assert forall|k: RealTimeEvent| #[trigger] n.list(k).no_duplicates() by {
            assert(n.list(k) == self.list(k));
        }
    }

    /// Subscribing keeps the table well formed.
    pub proof fn lemma_subscribe_wf(self, k: RealTimeEvent, h: u64)
        requires
            self.wf(),
        ensures
            self.subscribe(k, h).wf(),
    {
        let n = self.subscribe(k, h);
        if self.is_live(h) && !self.subscriptions[h].contains(k) {
            assert(!self.list(k).contains(h));
            assert(n.list(k) == self.list(k).push(h));
            assert forall|j: RealTimeEvent| #[trigger] n.list(j).no_duplicates() by {
                if j == k {
                    lemma_push_no_duplicates(self.list(k), h);
                } else {
                    assert(n.list(j) == self.list(j));
                }
            }
            assert forall|j: RealTimeEvent, x: u64| #[trigger]
                n.list(j).contains(x) <==> n.has_subscribed(x, j) by {
                if j == k {
                    lemma_push_contains(self.list(k), h, x);
                    assert(self.list(k).contains(x) <==> self.has_subscribed(x, k));
                } else {
                    assert(n.list(j) == self.list(j));
                    assert(self.list(j).contains(x) <==> self.has_subscribed(x, j));
                }
            }
        }
    }

    /// Unsubscribing keeps the table well formed.
    pub proof fn lemma_unsubscribe_wf(self, k: RealTimeEvent, h: u64)
        requires
            self.wf(),
        ensures
            self.unsubscribe(k, h).wf(),
    {
        let n = self.unsubscribe(k, h);
        let w = without(self.list(k), h);
        assert(n.list(k) == w);
        assert forall|j: RealTimeEvent| #[trigger] n.list(j).no_duplicates() by {
            if j == k {
                lemma_without_no_duplicates(self.list(k), h);
            } else {
                assert(n.list(j) == self.list(j));
            }
        }
        assert forall|j: RealTimeEvent, x: u64| #[trigger]
            n.list(j).contains(x) <==> n.has_subscribed(x, j) by {
            if j == k {
                lemma_without_contains(self.list(k), h, x);
                assert(self.list(k).contains(x) <==> self.has_subscribed(x, k));
            } else {
                assert(n.list(j) == self.list(j));
                assert(self.list(j).contains(x) <==> self.has_subscribed(x, j));
            }
        }
    }

    /// Closing a handle keeps the table well formed.
    pub proof fn lemma_close_wf(self, h: u64)
        requires
            self.wf(),
        ensures
            self.close(h).wf(),
    {
        let n = self.close(h);
        assert forall|j: RealTimeEvent| #[trigger] n.list(j).no_duplicates() by {
            assert(n.list(j) == without(self.list(j), h));
            lemma_without_no_duplicates(self.list(j), h);
        }
        assert forall|j: RealTimeEvent, x: u64| #[trigger]
            n.list(j).contains(x) <==> n.has_subscribed(x, j) by {
            assert(n.list(j) == without(self.list(j), h));
            lemma_without_contains(self.list(j), h, x);
            assert(self.list(j).contains(x) <==> self.has_subscribed(x, j));
        }
    }
}

/// The connection state that the table keeps for one handle.
pub struct UserConnection {
    subscribed_events: Vec<RealTimeEvent>,
}

impl View for UserConnection {
    type V = Set<RealTimeEvent>;

    closed spec fn view(&self) -> Set<RealTimeEvent> {
        self.subscribed_events@.to_set()
    }
}

impl UserConnection {
    /// A connection subscribed to no event.
    pub fn new() -> (r: UserConnection)
        ensures
            r@ == Set::<RealTimeEvent>::empty(),
    {
        let r = UserConnection { subscribed_events: Vec::new() };
        assert(r@ =~= Set::<RealTimeEvent>::empty());
        r
    }

    /// Whether the connection is subscribed to `event`.
    pub fn is_subscribed(&self, event: RealTimeEvent) -> (r: bool)
        ensures
            r == self@.contains(event),
    {
        let mut i: usize = 0;
        while i < self.subscribed_events.len()
            invariant
                i <= self.subscribed_events.len(),
                forall|j: int| 0 <= j < i ==> self.subscribed_events@[j] != event,
            decreases self.subscribed_events.len() - i,
        {
            if self.subscribed_events[i] == event {
                assert(self.subscribed_events@.contains(event));
                return true;
            }
            i += 1;
        }
        false
    }

    /// A copy of the events the connection is subscribed to.
    pub fn subscribed_events(&self) -> (r: Vec<RealTimeEvent>)
        ensures
            r@.to_set() == self@,
    {
        let r = self.subscribed_events.clone();
        assert(r@ =~= self.subscribed_events@);
        r
    }
}

/// The subscription table: for each event key the handles subscribed to it,
/// and for each live handle its own set of keys.
pub struct EventTracker {
    post_subscribers: HashMap<i64, Vec<u64>>,
    count_subscribers: Vec<u64>,
    connections: HashMap<u64, UserConnection>,
    next_handle: u64,
}

impl EventTracker {
    /// The list kept for `k`, empty when the table holds none.
    closed spec fn stored_list(&self, k: RealTimeEvent) -> Seq<u64> {
        match k {
            RealTimeEvent::NewPostNotification { followed_user_id } => {
                if self.post_subscribers@.contains_key(followed_user_id) {
                    self.post_subscribers@[followed_user_id]@
                } else {
                    Seq::empty()
                }
            },
            RealTimeEvent::ConnectedUsersCountUpdate => self.count_subscribers@,
        }
    }

    pub closed spec fn view(&self) -> TableModel {
        TableModel {
            subscribers: Map::new(
                |k: RealTimeEvent| self.stored_list(k).len() > 0,
                |k: RealTimeEvent| self.stored_list(k),
            ),
            subscriptions: self.connections@.map_values(|c: UserConnection| c@),
        }
    }

    /// The abstract table is well formed, no stored list is empty, and
    /// every live handle was numbered before the next one to hand out.
    pub closed spec fn wf(&self) -> bool {
        &&& self.view().wf()
        &&& forall|id: i64| #[trigger]
            self.post_subscribers@.contains_key(id) ==> self.post_subscribers@[id]@.len() > 0
        &&& forall|h: u64| #[trigger] self.connections@.contains_key(h) ==> h < self.next_handle
    }

    /// How many handles have been numbered so far.
    pub closed spec fn issued(&self) -> nat {
        self.next_handle as nat
    }

    /// Whether no new handle can be numbered any more.
    pub open spec fn exhausted(&self) -> bool {
        self.issued() == u64::MAX
    }

    /// What a well-formed table guarantees its callers: a handle stands in a
    /// key's list exactly when the key is in its own set, and no list repeats
    /// a handle or is empty.
    pub proof fn lemma_view_wf(&self)
        requires
            self.wf(),
        ensures
            self.view().wf(),
    {
    }

    /// Every live handle was numbered before the next one to hand out, so a
    /// handle that has been closed is never handed out again.
    pub proof fn lemma_live_issued(&self, h: u64)
        requires
            self.wf(),
            self.view().is_live(h),
        ensures
            (h as nat) < self.issued(),
    {
    }

    /// Whether no new handle can be numbered any more.
    pub fn is_exhausted(&self) -> (r: bool)
        ensures
            r == self.exhausted(),
    {
        self.next_handle == u64::MAX
    }

    proof fn lemma_list(&self, k: RealTimeEvent)
        ensures
            self.view().list(k) == self.stored_list(k),
    {
    }

    proof fn lemma_lists(&self)
        ensures
            forall|k: RealTimeEvent| #[trigger] self.view().list(k) == self.stored_list(k),
    {
        assert forall|k: RealTimeEvent| #[trigger] self.view().list(k) == self.stored_list(k) by {
            self.lemma_list(k);
        }
    }

    /// An empty table with no connection.
    pub fn new() -> (r: EventTracker)
        ensures
            r.wf(),
            r.view().subscribers == Map::<RealTimeEvent, Seq<u64>>::empty(),
            r.view().subscriptions == Map::<u64, Set<RealTimeEvent>>::empty(),
            !r.exhausted(),
    {
        let r = EventTracker {
            post_subscribers: HashMap::new(),
            count_subscribers: Vec::new(),
            connections: HashMap::new(),
            next_handle: 0,
        };
        assert(r.view().subscribers =~= Map::<RealTimeEvent, Seq<u64>>::empty());
        assert(r.view().subscriptions =~= Map::<u64, Set<RealTimeEvent>>::empty());
        r
    }

    /// A copy of the list kept for `k`.
    fn list_of(&self, k: RealTimeEvent) -> (r: Vec<u64>)
        ensures
            r@ == self.stored_list(k),
    {
        match k {
            RealTimeEvent::NewPostNotification { followed_user_id } => {
                match self.post_subscribers.get(&followed_user_id) {
                    Some(v) => {
                        let r = v.clone();
                        assert(r@ =~= v@);
                        r
                    },
                    None => Vec::new(),
                }
            },
            RealTimeEvent::ConnectedUsersCountUpdate => {
                let r = self.count_subscribers.clone();
                assert(r@ =~= self.count_subscribers@);
                r
            },
        }
    }

    /// Stores `v` as the list of `k`; an empty list is not kept.
    fn set_list(&mut self, k: RealTimeEvent, v: Vec<u64>)
        requires
            forall|id: i64| #[trigger]
                old(self).post_subscribers@.contains_key(id) ==> old(self).post_subscribers@[id]@.len() > 0,
        ensures
            final(self).stored_list(k) == v@,
            forall|j: RealTimeEvent| j != k ==> final(self).stored_list(j) == old(self).stored_list(j),
            forall|id: i64| #[trigger]
                final(self).post_subscribers@.contains_key(id) ==> final(self).post_subscribers@[id]@.len() > 0,
            final(self).connections == old(self).connections,
            final(self).next_handle == old(self).next_handle,
    {
        match k {
            RealTimeEvent::NewPostNotification { followed_user_id } => {
                if v.len() == 0 {
                    self.post_subscribers.remove(&followed_user_id);
                } else {
                    self.post_subscribers.insert(followed_user_id, v);
                }
            },
            RealTimeEvent::ConnectedUsersCountUpdate => {
                self.count_subscribers = v;
            },
        }
    }

    /// Numbers a new connection, subscribed to nothing; `None` once every
    /// number has been handed out. A number is never handed out twice.
    pub fn open_connection(&mut self) -> (r: Option<u64>)
        requires
            old(self).wf(),
        ensures
            final(self).wf(),
            r is None <==> old(self).exhausted(),
            match r {
                Some(h) => {
                    &&& !old(self).view().is_live(h)
                    &&& final(self).view() == old(self).view().open(h)
                    &&& h as nat == old(self).issued()
                    &&& final(self).issued() == old(self).issued() + 1
                },
                None => final(self).view() == old(self).view() && final(self).issued() == old(
                    self,
                ).issued(),
            },
    {
        if self.next_handle == u64::MAX {
            return None;
        }
        let h = self.next_handle;
        let ghost before = self.view();
        self.connections.insert(h, UserConnection::new());
        self.next_handle = h + 1;
        assert(self.view().subscriptions =~= before.open(h).subscriptions);
        assert(self.view().subscribers =~= before.subscribers);
        assert(self.view() == before.open(h));
        assert forall|k: RealTimeEvent, x: u64| #[trigger]
            self.view().list(k).contains(x) <==> self.view().has_subscribed(x, k) by {
            self.lemma_list(k);
            assert(before.list(k) == self.view().list(k));
            if x == h {
                assert(!before.list(k).contains(h));
            }
        }
        assert forall|k: RealTimeEvent| #[trigger] self.view().list(k).no_duplicates() by {
            assert(before.list(k) == self.view().list(k));
        }
        assert(self.view().wf());
        Some(h)
    }

    /// Subscribes `subscriber` to `event_type`. Nothing changes when the
    /// handle is not live or is already subscribed to that key, so a
    /// handle stands in a key's list at most once.
    pub fn subscribe(&mut self, event_type: RealTimeEvent, subscriber: u64)
        requires
            old(self).wf(),
        ensures
            final(self).wf(),
            final(self).view() == old(self).view().subscribe(event_type, subscriber),
            final(self).issued() == old(self).issued(),
            old(self).view().is_live(subscriber) ==> listed_once(
                final(self).view().list(event_type),
                subscriber,
            ),
    {
        let ghost before = self.view();
        proof {
            before.lemma_subscribe_wf(event_type, subscriber);
            let n = before.subscribe(event_type, subscriber);
            if before.is_live(subscriber) {
                assert(n.has_subscribed(subscriber, event_type));
                lemma_listed_once(n.list(event_type), subscriber);
            }
        }
        let mut connection = match self.connections.remove(&subscriber) {
            Some(c) => c,
            None => {
                assert(self.connections@ =~= old(self).connections@);
                assert(self.view().subscriptions =~= before.subscriptions);
                assert(self.view().subscribers =~= before.subscribers);
                return ;
            },
        };
        if connection.is_subscribed(event_type) {
            self.connections.insert(subscriber, connection);
            assert(self.connections@ =~= old(self).connections@);
            assert(self.view().subscriptions =~= before.subscriptions);
            assert(self.view().subscribers =~= before.subscribers);
            return ;
        }
        let ghost old_events = connection@;
        connection.subscribed_events.push(event_type);
        assert forall|e: RealTimeEvent| connection@.contains(e) <==> old_events.insert(
            event_type,
        ).contains(e) by {
            lemma_push_contains(old(self).connections@[subscriber].subscribed_events@, event_type, e);
        }
        assert(connection@ =~= old_events.insert(event_type));
        self.connections.insert(subscriber, connection);
        let mut list = self.list_of(event_type);
        list.push(subscriber);
        self.set_list(event_type, list);
        proof {
            old(self).lemma_lists();
            self.lemma_lists();
        }
        assert(self.view().subscriptions =~= before.subscribe(event_type, subscriber).subscriptions);
        assert(self.view().subscribers =~= before.subscribe(event_type, subscriber).subscribers);
    }

    /// Unsubscribes `subscriber` from `event_type`: the key leaves the
    /// handle's own set and the handle leaves the key's list, which is
    /// removed once empty. Calls with nothing to remove change nothing.
    pub fn unsubscribe(&mut self, event_type: RealTimeEvent, subscriber: u64)
        requires
            old(self).wf(),
        ensures
            final(self).wf(),
            final(self).view() == old(self).view().unsubscribe(event_type, subscriber),
            final(self).issued() == old(self).issued(),
    {
        let ghost before = self.view();
        proof {
            before.lemma_unsubscribe_wf(event_type, subscriber);
        }
        match self.connections.remove(&subscriber) {
            Some(connection) => {
                let ghost old_events = connection@;
                let kept = UserConnection {
                    subscribed_events: without_event(&connection.subscribed_events, event_type),
                };
                assert forall|e: RealTimeEvent| kept@.contains(e) <==> old_events.remove(
                    event_type,
                ).contains(e) by {
                    lemma_without_contains(connection.subscribed_events@, event_type, e);
                }
                assert(kept@ =~= old_events.remove(event_type));
                self.connections.insert(subscriber, kept);
            },
            None => {},
        }
        let list = self.list_of(event_type);
        let rest = without_id(&list, subscriber);
        self.set_list(event_type, rest);
        proof {
            old(self).lemma_lists();
            self.lemma_lists();
        }
        assert(self.view().subscriptions =~= before.unsubscribe(event_type, subscriber).subscriptions);
        assert(self.view().subscribers =~= before.unsubscribe(event_type, subscriber).subscribers);
    }

    /// The handles to which a payload published under `event_type` goes:
    /// every current subscriber of that key, each once.
    pub fn notify(&self, event_type: RealTimeEvent, content: String) -> (r: Delivery)
        requires
            self.wf(),
        ensures
            r.recipients@ == self.view().list(event_type),
            r.recipients@.no_duplicates(),
            forall|h: u64| #[trigger]
                r.recipients@.contains(h) <==> self.view().has_subscribed(h, event_type),
            r.payload == content,
    {
        Delivery { recipients: self.list_of(event_type), payload: content }
    }

    /// The keys that `h` is subscribed to; empty when `h` is not live.
    pub fn subscribed_events_of(&self, h: u64) -> (r: Vec<RealTimeEvent>)
        requires
            self.wf(),
        ensures
            self.view().is_live(h) ==> r@.to_set() == self.view().subscriptions[h],
            !self.view().is_live(h) ==> r@.len() == 0,
    {
        match self.connections.get(&h) {
            Some(c) => c.subscribed_events(),
            None => Vec::new(),
        }
    }

    /// Tears a connection down: it is unsubscribed from every key of its own
    /// set and is no longer live, so no later `notify` reaches it.
    pub fn close_connection(&mut self, h: u64)
        requires
            old(self).wf(),
        ensures
            final(self).wf(),
            final(self).view() == old(self).view().close(h),
            final(self).issued() == old(self).issued(),
    {
        let ghost before = self.view();
        proof {
            before.lemma_close_wf(h);
        }
        let events = self.subscribed_events_of(h);
        let mut i: usize = 0;
        while i < events.len()
            invariant
                self.wf(),
                i <= events.len(),
                self.issued() == old(self).issued(),
                before == old(self).view(),
                before.wf(),
                before.is_live(h) ==> events@.to_set() == before.subscriptions[h],
                !before.is_live(h) ==> events@.len() == 0,
                self.view().is_live(h) == before.is_live(h),
                forall|x: u64| x != h ==> self.view().subscriptions.contains_key(x)
                    == before.subscriptions.contains_key(x),
                forall|x: u64| #[trigger]
                    self.view().subscriptions.contains_key(x) && x != h
                        ==> self.view().subscriptions[x] == before.subscriptions[x],
                forall|k: RealTimeEvent| #[trigger]
                    self.view().list(k) == if events@.take(i as int).contains(k) {
                        without(before.list(k), h)
                    } else {
                        before.list(k)
                    },
            decreases events.len() - i,
        {
            let ghost cur = self.view();
            self.unsubscribe(events[i], h);
            proof {
                assert forall|k: RealTimeEvent| #[trigger]
                    self.view().list(k) == if events@.take(i + 1).contains(k) {
                        without(before.list(k), h)
                    } else {
                        before.list(k)
                    } by {
                    lemma_push_contains(events@.take(i as int), events@[i as int], k);
                    assert(events@.take(i + 1) =~= events@.take(i as int).push(events@[i as int]));
                    if k == events@[i as int] {
                        assert(self.view().list(k) == without(cur.list(k), h));
                        if events@.take(i as int).contains(k) {
                            lemma_without_contains(before.list(k), h, h);
                            lemma_without_absent(without(before.list(k), h), h);
                        }
                    } else {
                        assert(self.view().list(k) == cur.list(k));
                    }
                }
            }
            i += 1;
        }
        let ghost last = *self;
        self.connections.remove(&h);
        proof {
            last.lemma_lists();
            self.lemma_lists();
            assert forall|k: RealTimeEvent| #[trigger] self.view().list(k) == last.view().list(k) by {
                assert(self.stored_list(k) == last.stored_list(k));
            }
            assert(events@.take(events.len() as int) =~= events@);
            let target = before.close(h);
            assert forall|k: RealTimeEvent| #[trigger] self.view().list(k) == target.list(k) by {
                if without(before.list(k), h).len() == 0 {
                    assert(target.list(k) =~= without(before.list(k), h));
                } else {
                    assert(target.subscribers.contains_key(k));
                    assert(target.list(k) == without(before.list(k), h));
                }
                if events@.contains(k) {
                    assert(self.view().list(k) == without(before.list(k), h));
                } else {
                    assert(!before.has_subscribed(h, k)) by {
                        if before.is_live(h) {
                            assert(!events@.to_set().contains(k));
                        }
                    }
                    assert(!before.list(k).contains(h));
                    lemma_without_absent(before.list(k), h);
                }
            }
            assert(self.view().subscribers =~= target.subscribers) by {
                assert forall|k: RealTimeEvent| #[trigger] self.view().subscribers.contains_key(k)
                    == target.subscribers.contains_key(k) by {
                    assert(self.view().list(k) == target.list(k));
                }
                assert forall|k: RealTimeEvent| #[trigger] self.view().subscribers.contains_key(k)
                    implies self.view().subscribers[k] == target.subscribers[k] by {
                    assert(self.view().list(k) == target.list(k));
                }
            }
            assert(self.view().subscriptions =~= target.subscriptions);
        }
    }
}

} // verus!
