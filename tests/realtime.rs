use feed_events::events::RealTimeEvent;
use feed_events::registry::Users;
use feed_events::tracker::EventTracker;

fn post(id: i64) -> RealTimeEvent {
    RealTimeEvent::NewPostNotification { followed_user_id: id }
}

#[test]
fn subscribe_then_notify_reaches_once() {
    let mut t = EventTracker::new();
    let h = t.open_connection().unwrap();
    t.subscribe(post(7), h);
    let d = t.notify(post(7), "payload".to_string());
    assert_eq!(d.recipients, vec![h]);
    assert_eq!(d.payload, "payload");
}

#[test]
fn second_subscribe_does_not_duplicate() {
    let mut t = EventTracker::new();
    let h = t.open_connection().unwrap();
    t.subscribe(post(7), h);
    t.subscribe(post(7), h);
    assert_eq!(t.notify(post(7), String::new()).recipients, vec![h]);
    assert_eq!(t.subscribed_events_of(h), vec![post(7)]);
}

#[test]
fn unsubscribe_stops_delivery() {
    let mut t = EventTracker::new();
    let h = t.open_connection().unwrap();
    let other = t.open_connection().unwrap();
    t.subscribe(post(3), h);
    t.subscribe(post(3), other);
    t.unsubscribe(post(3), h);
    assert_eq!(t.notify(post(3), String::new()).recipients, vec![other]);
    t.unsubscribe(post(3), other);
    assert!(t.notify(post(3), String::new()).recipients.is_empty());
    assert!(t.subscribed_events_of(h).is_empty());
}

#[test]
fn unsubscribe_without_subscription_is_harmless() {
    let mut t = EventTracker::new();
    let h = t.open_connection().unwrap();
    t.unsubscribe(RealTimeEvent::ConnectedUsersCountUpdate, h);
    t.unsubscribe(post(1), 99);
    assert!(t.notify(RealTimeEvent::ConnectedUsersCountUpdate, String::new()).recipients.is_empty());
}

#[test]
fn notify_without_subscribers_is_empty() {
    let t = EventTracker::new();
    assert!(t.notify(post(1), String::new()).recipients.is_empty());
}

#[test]
fn subscribing_unknown_handle_changes_nothing() {
    let mut t = EventTracker::new();
    t.subscribe(post(1), 42);
    assert!(t.notify(post(1), String::new()).recipients.is_empty());
}

#[test]
fn handles_are_never_reused() {
    let mut t = EventTracker::new();
    let a = t.open_connection().unwrap();
    t.close_connection(a);
    let b = t.open_connection().unwrap();
    assert_ne!(a, b);
}

#[test]
fn disconnect_removes_every_trace() {
    let mut t = EventTracker::new();
    let mut users = Users::new();
    let c = t.connect_user(&mut users, 1, &vec![2, 3]).unwrap();
    t.subscribe(RealTimeEvent::ConnectedUsersCountUpdate, c.handle);
    t.disconnect(1, c.handle, &mut users);
    assert!(t.notify(post(2), String::new()).recipients.is_empty());
    assert!(t.notify(post(3), String::new()).recipients.is_empty());
    assert!(t.notify(RealTimeEvent::ConnectedUsersCountUpdate, String::new()).recipients.is_empty());
    assert!(users.handles_of(1).is_empty());
    t.subscribe(post(2), c.handle);
    assert!(t.notify(post(2), String::new()).recipients.is_empty());
}

#[test]
fn disconnect_keeps_other_handles_of_identity() {
    let mut t = EventTracker::new();
    let mut users = Users::new();
    let a = t.connect_user(&mut users, 5, &vec![9]).unwrap();
    let b = t.connect_user(&mut users, 5, &vec![9]).unwrap();
    t.disconnect(5, a.handle, &mut users);
    assert_eq!(users.handles_of(5), vec![b.handle]);
    assert_eq!(t.notify(post(9), String::new()).recipients, vec![b.handle]);
}

#[test]
fn counter_counts_distinct_positive_identities() {
    let mut t = EventTracker::new();
    let mut users = Users::new();
    let mut handles = Vec::new();
    for id in 1..=4 {
        handles.push(t.connect_user(&mut users, id, &vec![]).unwrap());
    }
    assert_eq!(users.connected_count(), 4);
    let second = t.connect_user(&mut users, 2, &vec![]).unwrap();
    assert!(second.count_update.is_none());
    assert_eq!(users.connected_count(), 4);
    assert!(t.disconnect(2, second.handle, &mut users).is_none());
    assert_eq!(users.connected_count(), 4);
    t.disconnect(2, handles[1].handle, &mut users);
    assert_eq!(users.connected_count(), 3);
    let anon = t.connect_anonymous(&mut users).unwrap();
    assert!(anon.identity < 0);
    assert_eq!(users.connected_count(), 3);
    assert!(t.disconnect(anon.identity, anon.handle, &mut users).is_none());
    assert_eq!(users.connected_count(), 3);
}

#[test]
fn counter_update_goes_to_its_subscribers() {
    let mut t = EventTracker::new();
    let mut users = Users::new();
    let watcher = t.connect_anonymous(&mut users).unwrap();
    t.subscribe(RealTimeEvent::ConnectedUsersCountUpdate, watcher.handle);
    let c = t.connect_user(&mut users, 10, &vec![]).unwrap();
    let d = c.count_update.unwrap();
    assert_eq!(d.recipients, vec![watcher.handle]);
    assert_eq!(d.payload, "{\"event\":\"connected_users_count_update\",\"content\":1}");
    let d = t.disconnect(10, c.handle, &mut users).unwrap();
    assert_eq!(d.recipients, vec![watcher.handle]);
    assert_eq!(d.payload, "{\"event\":\"connected_users_count_update\",\"content\":0}");
}

#[test]
fn anonymous_identities_decrease_and_stay_solo() {
    let mut t = EventTracker::new();
    let mut users = Users::new();
    let a = t.connect_anonymous(&mut users).unwrap();
    let b = t.connect_anonymous(&mut users).unwrap();
    assert_eq!(a.identity, -1);
    assert_eq!(b.identity, -2);
    assert_eq!(users.handles_of(-1), vec![a.handle]);
    assert!(t.subscribed_events_of(a.handle).is_empty());
}

#[test]
fn follow_reaches_every_live_handle() {
    let mut t = EventTracker::new();
    let mut users = Users::new();
    let a = t.connect_user(&mut users, 1, &vec![]).unwrap();
    let b = t.connect_user(&mut users, 1, &vec![]).unwrap();
    t.follow(&users, 1, 8);
    assert_eq!(t.notify(post(8), String::new()).recipients, vec![a.handle, b.handle]);
}

#[test]
fn followed_users_scenario() {
    let mut t = EventTracker::new();
    let mut users = Users::new();
    let (b, c) = (20, 30);
    let a = t.connect_user(&mut users, 10, &vec![b, c]).unwrap();
    let mut events = t.subscribed_events_of(a.handle);
    events.sort_by_key(|e| match e {
        RealTimeEvent::NewPostNotification { followed_user_id } => *followed_user_id,
        RealTimeEvent::ConnectedUsersCountUpdate => 0,
    });
    assert_eq!(events, vec![post(b), post(c)]);
    let d = t.notify(post(b), "post by b".to_string());
    assert_eq!(d.recipients, vec![a.handle]);
    assert!(t.notify(post(40), String::new()).recipients.is_empty());
    t.disconnect(10, a.handle, &mut users);
    assert!(t.notify(post(b), "again".to_string()).recipients.is_empty());
}

#[test]
fn registering_same_handle_twice_is_ignored() {
    let t = EventTracker::new();
    let mut users = Users::new();
    t.add_to_users(4, &mut users, 11);
    assert!(t.add_to_users(4, &mut users, 11).is_none());
    assert_eq!(users.handles_of(4), vec![11]);
    assert_eq!(users.connected_count(), 1);
    assert!(t.remove_from_users(4, &mut users, 12).is_none());
    assert_eq!(users.handles_of(4), vec![11]);
    assert!(t.remove_from_users(4, &mut users, 11).is_some());
    assert_eq!(users.connected_count(), 0);
}

#[test]
fn anonymous_identity_holds_only_its_handle() {
    let mut t = EventTracker::new();
    let mut users = Users::new();
    let a = t.connect_anonymous(&mut users).unwrap();
    assert_eq!(users.handles_of(a.identity), vec![a.handle]);
    assert_eq!(users.connected_count(), 0);
    assert!(t.connect_user(&mut users, -5, &vec![]).is_none());
    assert!(users.handles_of(-5).is_empty());
}
