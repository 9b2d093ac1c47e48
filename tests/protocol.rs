use feed_events::events::RealTimeEvent;
use feed_events::protocol::{interpret_client_event, ClientAction, ClientEvent, WsEvent};
use feed_events::tracker::EventTracker;

#[test]
fn count_update_frame_text() {
    assert_eq!(
        WsEvent::new_connected_users_count_update_event(42),
        "{\"event\":\"connected_users_count_update\",\"content\":42}"
    );
    assert_eq!(
        WsEvent::new_connected_users_count_update_event(0),
        "{\"event\":\"connected_users_count_update\",\"content\":0}"
    );
}

#[test]
fn error_frame_escapes_text() {
    assert_eq!(
        WsEvent::new_error("bad \"x\""),
        "{\"event\":\"error\",\"content\":\"bad \\\"x\\\"\"}"
    );
}

#[test]
fn post_frame_keeps_content() {
    assert_eq!(
        WsEvent::new_post_notification_event("{\"id\":1}"),
        "{\"event\":\"new_post_notification\",\"content\":{\"id\":1}}"
    );
}

#[test]
fn interpret_known_commands() {
    let c = interpret_client_event("subscribe_to_event", "connected_users_count_update").unwrap();
    assert_eq!(c.action, ClientAction::Subscribe);
    assert_eq!(c.event, RealTimeEvent::ConnectedUsersCountUpdate);
    let c = interpret_client_event("unsubscribe_to_event", "connected_users_count_update").unwrap();
    assert_eq!(c.action, ClientAction::Unsubscribe);
}

#[test]
fn interpret_refuses_unknown_event_and_action() {
    assert_eq!(
        interpret_client_event("subscribe_to_event", "new_post_notification").unwrap_err(),
        "L'event `new_post_notification` n'existe pas."
    );
    assert_eq!(
        interpret_client_event("jump", "connected_users_count_update").unwrap_err(),
        "L'action `jump` n'existe pas."
    );
}

#[test]
fn client_event_decoding() {
    let e = ClientEvent::from_json("{\"action\":\"a\",\"content\":{\"event\":\"b\"}}").unwrap();
    assert_eq!(e.action, "a");
    assert_eq!(e.event_name().unwrap(), "b");
    assert!(ClientEvent::from_json("not json").is_none());
    assert!(ClientEvent::from_json("{\"action\":1,\"content\":{}}").is_none());
    assert!(ClientEvent::from_json("{\"action\":\"a\"}").is_none());
    let e = ClientEvent::from_json("{\"action\":\"a\",\"content\":{}}").unwrap();
    assert_eq!(
        e.event_name().unwrap_err(),
        "Le champs `event` est manquant à l'intérieur de `content`."
    );
    let e = ClientEvent::from_json("{\"action\":\"a\",\"content\":{\"event\":3}}").unwrap();
    assert_eq!(
        e.event_name().unwrap_err(),
        "Le champs `event` à l'intérieur de `content` doit être une chaîne de caractères."
    );
}

#[test]
fn unknown_command_scenario() {
    let mut t = EventTracker::new();
    let h = t.open_connection().unwrap();
    let r = t.handle_client_event(
        "{\"action\":\"subscribe_to_event\",\"content\":{\"event\":\"not_a_real_event\"}}",
        h,
    );
    let message = r.unwrap_err();
    assert_eq!(message, "L'event `not_a_real_event` n'existe pas.");
    assert_eq!(
        WsEvent::new_error(&message),
        "{\"event\":\"error\",\"content\":\"L'event `not_a_real_event` n'existe pas.\"}"
    );
    assert!(t.subscribed_events_of(h).is_empty());
    t.handle_client_event(
        "{\"action\":\"subscribe_to_event\",\"content\":{\"event\":\"connected_users_count_update\"}}",
        h,
    )
    .unwrap();
    assert_eq!(
        t.notify(RealTimeEvent::ConnectedUsersCountUpdate, String::new()).recipients,
        vec![h]
    );
    t.handle_client_event(
        "{\"action\":\"unsubscribe_to_event\",\"content\":{\"event\":\"connected_users_count_update\"}}",
        h,
    )
    .unwrap();
    assert!(t.notify(RealTimeEvent::ConnectedUsersCountUpdate, String::new()).recipients.is_empty());
}

#[test]
fn invalid_frame_is_answered() {
    let mut t = EventTracker::new();
    let h = t.open_connection().unwrap();
    assert_eq!(t.handle_client_event("{", h).unwrap_err(), "Event JSON invalide.");
}

#[test]
fn command_frames_get_their_answers() {
    let mut t = EventTracker::new();
    let h = t.open_connection().unwrap();
    assert_eq!(
        t.handle_client_event("{\"action\":\"subscribe_to_event\",\"content\":{}}", h).unwrap_err(),
        "Le champs `event` est manquant à l'intérieur de `content`."
    );
    assert_eq!(
        t.handle_client_event("{\"action\":\"subscribe_to_event\",\"content\":{\"event\":1}}", h)
            .unwrap_err(),
        "Le champs `event` à l'intérieur de `content` doit être une chaîne de caractères."
    );
    assert_eq!(
        t.handle_client_event(
            "{\"action\":\"foo\",\"content\":{\"event\":\"connected_users_count_update\"}}",
            h
        )
        .unwrap_err(),
        "L'action `foo` n'existe pas."
    );
    assert_eq!(
        t.handle_client_event(
            "{\"action\":\"subscribe_to_event\",\"content\":{\"event\":\"new_post_notification\"}}",
            h
        )
        .unwrap_err(),
        "L'event `new_post_notification` n'existe pas."
    );
    assert_eq!(t.handle_client_event("not json", h).unwrap_err(), "Event JSON invalide.");
    assert!(t.subscribed_events_of(h).is_empty());
}

#[test]
fn decimal_digits() {
    assert_eq!(feed_events::protocol::decimal_text(0), "0");
    assert_eq!(feed_events::protocol::decimal_text(1907), "1907");
    assert_eq!(feed_events::protocol::decimal_text(u64::MAX), "18446744073709551615");
    assert_eq!(feed_events::token::signed_decimal_text(i64::MIN), "-9223372036854775808");
    assert_eq!(feed_events::token::signed_decimal_text(-42), "-42");
}
