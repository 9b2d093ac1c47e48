use vstd::prelude::*;

use crate::events::{Delivery, RealTimeEvent};
use crate::protocol::{
    ClientAction, ClientCommand, ClientEvent, command_fields, command_of, count_update_frame,
    event_view, interpret_client_event, EVENT_NOT_TEXT_MESSAGE, INVALID_JSON_MESSAGE,
    MISSING_EVENT_MESSAGE, WsEvent,
};
use crate::registry::{RegistryModel, Users};
use crate::tracker::{EventTracker, TableModel};

verus! {

impl TableModel {
    /// The effect of a client command sent on connection `h`.
    pub open spec fn apply(self, cmd: ClientCommand, h: u64) -> TableModel {
        match cmd.action {
            ClientAction::Subscribe => self.subscribe(cmd.event, h),
            ClientAction::Unsubscribe => self.unsubscribe(cmd.event, h),
        }
    }

    /// Subscribes each handle of `hs` to `k`, first to last.
    pub open spec fn subscribe_each(self, k: RealTimeEvent, hs: Seq<u64>) -> TableModel
        decreases hs.len(),
    {
        if hs.len() == 0 {
            self
        } else {
            self.subscribe_each(k, hs.drop_last()).subscribe(k, hs.last())
        }
    }

    /// Subscribes `h` to the posts of each user of `ids`, first to last.
    pub open spec fn follow_each(self, ids: Seq<i64>, h: u64) -> TableModel
        decreases ids.len(),
    {
        if ids.len() == 0 {
            self
        } else {
            self.follow_each(ids.drop_last(), h).subscribe(
                RealTimeEvent::NewPostNotification { followed_user_id: ids.last() },
                h,
            )
        }
    }
}

/// The registry changes that announce a new counter value, and to whom.
pub open spec fn count_delivery_ok(
    r: Option<Delivery>,
    table: TableModel,
    before: RegistryModel,
    after: RegistryModel,
) -> bool {
    if after.count != before.count {
        &&& r is Some
        &&& r->Some_0.recipients@ == table.list(RealTimeEvent::ConnectedUsersCountUpdate)
        &&& r->Some_0.payload@ == count_update_frame(after.count)
    } else {
        r is None
    }
}

/// A connection that has been set up: its handle, its identity, and the
/// counter update to send if the identity is newly present.
pub struct Connected {
    pub handle: u64,
    pub identity: i64,
    pub count_update: Option<Delivery>,
}

impl EventTracker {
    /// Carries out a client command on connection `sender`.
    pub fn apply_command(&mut self, cmd: ClientCommand, sender: u64)
        requires
            old(self).wf(),
        ensures
            final(self).wf(),
            final(self).view() == old(self).view().apply(cmd, sender),
            final(self).issued() == old(self).issued(),
    {
        match cmd.action {
            ClientAction::Subscribe => self.subscribe(cmd.event, sender),
            ClientAction::Unsubscribe => self.unsubscribe(cmd.event, sender),
        }
    }

    /// Understands and carries out a command with this action and event
    /// name; a refused command changes nothing and yields its answer.
    pub fn apply_client_event(&mut self, action: &str, event_name: &str, sender: u64) -> (r: Result<
        (),
        String,
    >)
        requires
            old(self).wf(),
        ensures
            final(self).wf(),
            final(self).issued() == old(self).issued(),
            match command_of(action@, event_name@) {
                Ok(c) => r is Ok && final(self).view() == old(self).view().apply(c, sender),
                Err(m) => r is Err && r->Err_0@ == m && final(self).view() == old(self).view(),
            },
    {
        match interpret_client_event(action, event_name) {
            Ok(cmd) => {
                self.apply_command(cmd, sender);
                Ok(())
            },
            Err(m) => Err(m),
        }
    }

    /// Handles one text frame received on connection `sender`. A frame that
    /// is not a command, or a command that is refused, changes nothing and
    /// yields the answer to send back; the connection stays open either way.
    pub fn handle_client_event(&mut self, client_event_text: &str, sender: u64) -> (r: Result<
        (),
        String,
    >)
        requires
            old(self).wf(),
        ensures
            final(self).wf(),
            final(self).issued() == old(self).issued(),
            r is Err ==> final(self).view() == old(self).view(),
            match command_fields(client_event_text@) {
                None => r is Err && r->Err_0@ == INVALID_JSON_MESSAGE@,
                Some(f) => match f.1 {
                    None => r is Err && r->Err_0@ == MISSING_EVENT_MESSAGE@,
                    Some(None) => r is Err && r->Err_0@ == EVENT_NOT_TEXT_MESSAGE@,
                    Some(Some(name)) => match command_of(f.0, name) {
                        Ok(c) => r is Ok && final(self).view() == old(self).view().apply(c, sender),
                        Err(m) => r is Err && r->Err_0@ == m,
                    },
                },
            },
    {
        let event = match ClientEvent::from_json(client_event_text) {
            Some(e) => e,
            None => {
                return Err(String::from_str(INVALID_JSON_MESSAGE));
            },
        };
        assert(event_view(event.event) == command_fields(client_event_text@)->Some_0.1);
        let name = match event.event_name() {
            Ok(n) => n,
            Err(m) => {
                return Err(m);
            },
        };
        self.apply_client_event(event.action.as_str(), name.as_str(), sender)
    }

    /// Subscribes each handle of `handles` to `event_type`.
    pub fn subscribe_handles(&mut self, event_type: RealTimeEvent, handles: &Vec<u64>)
        requires
            old(self).wf(),
        ensures
            final(self).wf(),
            final(self).view() == old(self).view().subscribe_each(event_type, handles@),
            final(self).issued() == old(self).issued(),
    {
        let mut i: usize = 0;
        while i < handles.len()
            invariant
                self.wf(),
                i <= handles.len(),
                self.view() == old(self).view().subscribe_each(event_type, handles@.take(i as int)),
                self.issued() == old(self).issued(),
            decreases handles.len() - i,
        {
            self.subscribe(event_type, handles[i]);
            assert(handles@.take(i + 1).drop_last() =~= handles@.take(i as int));
            i += 1;
        }
        assert(handles@.take(handles.len() as int) =~= handles@);
    }

    /// A new follow relationship: every live handle of `follower` starts
    /// receiving the posts of `followed` without reconnecting.
    pub fn follow(&mut self, users: &Users, follower: i64, followed: i64)
        requires
            old(self).wf(),
        ensures
            final(self).wf(),
            final(self).view() == old(self).view().subscribe_each(
                RealTimeEvent::NewPostNotification { followed_user_id: followed },
                users.view().handles(follower),
            ),
            final(self).issued() == old(self).issued(),
    {
        let handles = users.handles_of(follower);
        self.subscribe_handles(
            RealTimeEvent::NewPostNotification { followed_user_id: followed },
            &handles,
        );
    }

    /// Subscribes `h` to the posts of each user of `followed`.
    pub fn follow_all(&mut self, followed: &Vec<i64>, h: u64)
        requires
            old(self).wf(),
        ensures
            final(self).wf(),
            final(self).view() == old(self).view().follow_each(followed@, h),
            final(self).issued() == old(self).issued(),
    {
        let mut i: usize = 0;
        while i < followed.len()
            invariant
                self.wf(),
                i <= followed.len(),
                self.view() == old(self).view().follow_each(followed@.take(i as int), h),
                self.issued() == old(self).issued(),
            decreases followed.len() - i,
        {
            self.subscribe(RealTimeEvent::NewPostNotification { followed_user_id: followed[i] }, h);
            assert(followed@.take(i + 1).drop_last() =~= followed@.take(i as int));
            i += 1;
        }
        assert(followed@.take(followed.len() as int) =~= followed@);
    }

    /// Registers handle `user` under identity `id`; when a positive identity
    /// is newly present, the new count goes to the subscribers of the
    /// counter.
    pub fn add_to_users(&self, id: i64, users: &mut Users, user: u64) -> (r: Option<Delivery>)
        requires
            self.wf(),
            old(users).wf(),
            id <= 0 || old(users).view().count < usize::MAX,
            id > old(users).next_anonymous(),
        ensures
            final(users).wf(),
            final(users).view() == old(users).view().register(id, user),
            final(users).next_anonymous() == old(users).next_anonymous(),
            count_delivery_ok(r, self.view(), old(users).view(), final(users).view()),
    {
        match users.register(id, user) {
            Some(count) => Some(
                self.notify(
                    RealTimeEvent::ConnectedUsersCountUpdate,
                    WsEvent::new_connected_users_count_update_event(count),
                ),
            ),
            None => None,
        }
    }

    /// Removes handle `user` from identity `id`; when a positive identity
    /// loses its last handle, the new count goes to the subscribers of the
    /// counter.
    pub fn remove_from_users(&self, id: i64, users: &mut Users, user: u64) -> (r: Option<Delivery>)
        requires
            self.wf(),
            old(users).wf(),
        ensures
            final(users).wf(),
            final(users).view() == old(users).view().deregister(id, user),
            final(users).next_anonymous() == old(users).next_anonymous(),
            count_delivery_ok(r, self.view(), old(users).view(), final(users).view()),
    {
        let changed = users.deregister(id, user);
        match changed {
            Some(count) => {
                assert(count as nat == users.view().count);
                Some(
                    self.notify(
                        RealTimeEvent::ConnectedUsersCountUpdate,
                        WsEvent::new_connected_users_count_update_event(count),
                    ),
                )
            },
            None => None,
        }
    }

    /// Tears down connection `user` of identity `id`: it leaves every list
    /// of the table and its identity's entry in the registry.
    pub fn disconnect(&mut self, id: i64, user: u64, users: &mut Users) -> (r: Option<Delivery>)
        requires
            old(self).wf(),
            old(users).wf(),
        ensures
            final(self).wf(),
            final(users).wf(),
            final(self).view() == old(self).view().close(user),
            final(self).issued() == old(self).issued(),
            final(users).view() == old(users).view().deregister(id, user),
            final(users).next_anonymous() == old(users).next_anonymous(),
            count_delivery_ok(r, final(self).view(), old(users).view(), final(users).view()),
    {
        self.close_connection(user);
        self.remove_from_users(id, users, user)
    }

    /// Sets up the connection of authenticated user `id`, who follows the
    /// users of `followed`: a new handle, subscribed to their posts, then
    /// registered. `None`, with nothing changed, when no handle number or
    /// counter value is left, or when `id` is a negative identity that has
    /// not been handed out to an anonymous connection.
    pub fn connect_user(&mut self, users: &mut Users, id: i64, followed: &Vec<i64>) -> (r: Option<
        Connected,
    >)
        requires
            old(self).wf(),
            old(users).wf(),
        ensures
            final(self).wf(),
            final(users).wf(),
            final(users).next_anonymous() == old(users).next_anonymous(),
            r is None <==> (old(self).exhausted() || old(users).view().count == usize::MAX || id
                <= old(users).next_anonymous()),
            match r {
                None => final(self).view() == old(self).view() && final(users).view() == old(
                    users,
                ).view(),
                Some(c) => {
                    &&& c.identity == id
                    &&& !old(self).view().is_live(c.handle)
                    &&& final(self).view() == old(self).view().open(c.handle).follow_each(
                        followed@,
                        c.handle,
                    )
                    &&& final(users).view() == old(users).view().register(id, c.handle)
                    &&& count_delivery_ok(
                        c.count_update,
                        final(self).view(),
                        old(users).view(),
                        final(users).view(),
                    )
                },
            },
    {
        if users.connected_count() == usize::MAX || id <= users.next_anonymous_id() {
            return None;
        }
        let h = match self.open_connection() {
            Some(h) => h,
            None => {
                return None;
            },
        };
        self.follow_all(followed, h);
        let count_update = self.add_to_users(id, users, h);
        Some(Connected { handle: h, identity: id, count_update })
    }

    /// Sets up an anonymous connection: a new handle under a fresh negative
    /// identity, with no subscription and no effect on the counter. `None`,
    /// with nothing changed, when no handle number or identity is left.
    pub fn connect_anonymous(&mut self, users: &mut Users) -> (r: Option<Connected>)
        requires
            old(self).wf(),
            old(users).wf(),
        ensures
            final(self).wf(),
            final(users).wf(),
            r is None <==> (old(self).exhausted() || old(users).anonymous_exhausted()),
            match r {
                None => final(self).view() == old(self).view() && final(users).view() == old(
                    users,
                ).view() && final(users).next_anonymous() == old(users).next_anonymous(),
                Some(c) => {
                    &&& c.identity < 0
                    &&& c.identity == old(users).next_anonymous()
                    &&& final(users).next_anonymous() == c.identity - 1
                    &&& !old(self).view().is_live(c.handle)
                    &&& final(self).view() == old(self).view().open(c.handle)
                    &&& !old(users).view().entries.contains_key(c.identity)
                    &&& final(users).view() == old(users).view().register(c.identity, c.handle)
                    &&& final(users).view().handles(c.identity) == seq![c.handle]
                    &&& final(users).view().count == old(users).view().count
                    &&& c.count_update is None
                },
            },
    {
        if self.is_exhausted() {
            return None;
        }
        let id = match users.allocate_anonymous_id() {
            Some(id) => id,
            None => {
                return None;
            },
        };
        let h = match self.open_connection() {
            Some(h) => h,
            None => {
                return None;
            },
        };
        proof {
            old(users).lemma_view_wf();
        }
        let count_update = self.add_to_users(id, users, h);
        Some(Connected { handle: h, identity: id, count_update })
    }
}

} // verus!
