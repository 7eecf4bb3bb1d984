use mr_damian::error::MrDamianError;
use mr_damian::factory::factory;
use mr_damian::message::{Message, Packet, Property};
use mr_damian::model::Kind;
use mr_damian::publisher::{accept_packet, announcement, i64_to_string, publisher_actions, PublisherAction, RaidClaim};
use mr_damian::subscriber::{RaidEvent, SubscriberAction, SubscriberEvent, SubscriberProcess};
use mr_damian::tray::MenuMode;

fn raid_event() -> RaidEvent {
    RaidEvent {
        from_broadcaster_user_id: "42".to_string(),
        from_broadcaster_user_login: "alice".to_string(),
        from_broadcaster_user_name: "Alice".to_string(),
        to_broadcaster_user_id: "99".to_string(),
        to_broadcaster_user_login: "bob".to_string(),
        to_broadcaster_user_name: "Bob".to_string(),
        viewers: 7,
    }
}

#[test]
fn welcome_records_session_and_requests_subscription() {
    let mut process = SubscriberProcess::new();
    let actions = process
        .handle_event(SubscriberEvent::Session {
            session_id: "S1".to_string(),
            reconnect_url: None,
        })
        .unwrap();
    assert_eq!(actions.len(), 1);
    assert!(matches!(
        &actions[0],
        SubscriberAction::CreateSubscription { session_id } if session_id == "S1"
    ));
    assert_eq!(process.session_id.as_deref(), Some("S1"));
}

#[test]
fn valid_reconnect_url_is_recorded() {
    let mut process = SubscriberProcess::new();
    let actions = process
        .handle_event(SubscriberEvent::Session {
            session_id: "S2".to_string(),
            reconnect_url: Some("wss://eventsub.example/ws?id=1".to_string()),
        })
        .unwrap();
    assert_eq!(actions.len(), 1);
    assert_eq!(
        process.reconnect_url.as_deref(),
        Some("wss://eventsub.example/ws?id=1")
    );
}

#[test]
fn invalid_reconnect_url_is_swallowed_without_subscribing() {
    let mut process = SubscriberProcess::new();
    let actions = process
        .handle_event(SubscriberEvent::Session {
            session_id: "S3".to_string(),
            reconnect_url: Some("not a url at all".to_string()),
        })
        .unwrap();
    // the per-event failure is swallowed: no action, session id recorded,
    // the previous reconnect URL kept
    assert_eq!(actions.len(), 0);
    assert_eq!(process.session_id.as_deref(), Some("S3"));
    assert_eq!(process.reconnect_url, None);
}

#[test]
fn raid_notification_emits_one_packet() {
    let mut process = SubscriberProcess::new();
    let actions = process.handle_event(SubscriberEvent::Raid(raid_event())).unwrap();
    assert_eq!(actions.len(), 1);
    let packet = match &actions[0] {
        SubscriberAction::Emit(p) => p,
        other => panic!("expected an emitted packet, got {:?}", other),
    };
    assert_eq!(packet.port, "raid");
    assert!(matches!(
        packet.message.get(&"event".to_string()),
        Some(Property::Text(s)) if s == "raid"
    ));
    assert!(matches!(
        packet.message.get(&"from_broadcaster_user_login".to_string()),
        Some(Property::Text(s)) if s == "alice"
    ));
    assert!(matches!(
        packet.message.get(&"viewers".to_string()),
        Some(Property::I64(7))
    ));
}

#[test]
fn malformed_frame_then_notification_produces_exactly_one_packet() {
    let mut process = SubscriberProcess::new();
    let none = process.handle_event(SubscriberEvent::Malformed).unwrap();
    assert_eq!(none.len(), 0);
    let actions = process.handle_event(SubscriberEvent::Raid(raid_event())).unwrap();
    assert_eq!(actions.len(), 1);
    assert!(matches!(&actions[0], SubscriberAction::Emit(_)));
}

#[test]
fn protocol_reset_reconnects_without_failing() {
    let mut process = SubscriberProcess::new();
    let actions = process.handle_event(SubscriberEvent::ProtocolReset).unwrap();
    assert_eq!(actions.len(), 1);
    assert!(matches!(&actions[0], SubscriberAction::Reconnect));
    let actions = process.handle_event(SubscriberEvent::StreamEnd).unwrap();
    assert!(matches!(&actions[0], SubscriberAction::Reconnect));
}

#[test]
fn connection_closed_is_fatal() {
    let mut process = SubscriberProcess::new();
    let err = process.handle_event(SubscriberEvent::ConnectionClosed).unwrap_err();
    assert!(err == MrDamianError::ConnectionClosed);
}

#[test]
fn keepalive_and_revocation_are_ignored() {
    let mut process = SubscriberProcess::new();
    assert_eq!(process.handle_event(SubscriberEvent::Keepalive).unwrap().len(), 0);
    assert_eq!(process.handle_event(SubscriberEvent::Revocation).unwrap().len(), 0);
    assert_eq!(process.handle_event(SubscriberEvent::Unknown).unwrap().len(), 0);
    assert_eq!(process.handle_event(SubscriberEvent::OtherTransport).unwrap().len(), 0);
}

fn message_packet(keys: &[(&str, Property)]) -> Packet {
    let mut m = Message::new();
    for (k, v) in keys {
        m.insert(k.to_string(), v.clone());
    }
    Packet {
        port: "message".to_string(),
        message: m,
    }
}

#[test]
fn publisher_drops_packets_for_other_ports() {
    let mut p = message_packet(&[]);
    p.port = "metrics".to_string();
    assert!(accept_packet(&p).unwrap().is_none());
}

#[test]
fn publisher_accepts_a_complete_message() {
    let p = message_packet(&[
        ("from_broadcaster_user_login", Property::Text("alice".to_string())),
        ("from_broadcaster_user_id", Property::Text("42".to_string())),
        ("viewers", Property::I64(7)),
    ]);
    let claim = accept_packet(&p).unwrap().expect("accepted");
    assert_eq!(claim.from_broadcaster_user_login, "alice");
    assert_eq!(claim.from_broadcaster_user_id, "42");
    assert_eq!(claim.viewers, 7);
}

#[test]
fn publisher_rejects_missing_and_wrongly_typed_properties() {
    let missing = message_packet(&[
        ("from_broadcaster_user_login", Property::Text("alice".to_string())),
        ("from_broadcaster_user_id", Property::Text("42".to_string())),
    ]);
    assert!(accept_packet(&missing).unwrap_err() == MrDamianError::MessageKeyNotFound);

    let wrong_type = message_packet(&[
        ("from_broadcaster_user_login", Property::Text("alice".to_string())),
        ("from_broadcaster_user_id", Property::Text("42".to_string())),
        ("viewers", Property::Text("7".to_string())),
    ]);
    assert!(accept_packet(&wrong_type).unwrap_err() == MrDamianError::MessageKeyNotFound);
}

#[test]
fn decimal_formatting_is_exact() {
    assert_eq!(i64_to_string(0), "0");
    assert_eq!(i64_to_string(7), "7");
    assert_eq!(i64_to_string(1234), "1234");
    assert_eq!(i64_to_string(-56), "-56");
    assert_eq!(i64_to_string(i64::MAX), "9223372036854775807");
    assert_eq!(i64_to_string(i64::MIN), "-9223372036854775808");
}

#[test]
fn announcement_contains_login_count_and_game() {
    let text = announcement(&"alice".to_string(), 7, &"Tetris".to_string());
    assert_eq!(
        text,
        "aliceさんから7名のRAIDを頂きました！今日は「Tetris」を遊んでいたみたい"
    );
}

#[test]
fn publisher_posts_announcement_then_shoutout() {
    let claim = RaidClaim {
        from_broadcaster_user_login: "alice".to_string(),
        from_broadcaster_user_id: "42".to_string(),
        viewers: 7,
    };
    let actions = publisher_actions(&claim, &"alice".to_string(), &"Tetris".to_string());
    assert_eq!(actions.len(), 2);
    match &actions[0] {
        PublisherAction::Announce { message } => {
            assert!(message.contains("alice"));
            assert!(message.contains('7'));
            assert!(message.contains("Tetris"));
        }
        other => panic!("expected the announcement first, got {:?}", other),
    }
    assert!(matches!(
        &actions[1],
        PublisherAction::Shoutout { to_broadcaster_user_id } if to_broadcaster_user_id == "42"
    ));
}

#[test]
fn factory_advertises_both_kinds() {
    let f = factory();
    let candidates = f.candidates();
    assert_eq!(candidates.len(), 2);
    assert_eq!(candidates[0].kind.0, "TwitchPublisher");
    assert_eq!(candidates[0].label, "Twitch Publisher");
    assert_eq!(candidates[1].kind.0, "TwitchSubscriber");
    assert_eq!(candidates[1].label, "Twitch Subscriber");
}

#[test]
fn factory_rejects_unknown_kinds() {
    let f = factory();
    let err = f
        .create_component(&Kind("NoSuchKind".to_string()), &"X".to_string())
        .unwrap_err();
    assert!(err == MrDamianError::InvalidComponent);
}

#[test]
fn factory_declares_the_raid_output() {
    let f = factory();
    let c = f
        .create_component(&Kind("TwitchSubscriber".to_string()), &"A".to_string())
        .unwrap();
    assert_eq!(c.id, "A");
    assert_eq!(c.kind.0, "TwitchSubscriber");
    assert!(c.inputs.is_empty());
    assert_eq!(c.outputs.len(), 1);
    assert_eq!(c.outputs[0].id.parent, "A");
    assert_eq!(c.outputs[0].id.name, "raid");
    assert_eq!(
        c.outputs[0].property_names,
        vec![
            "from_broadcaster_user_id".to_string(),
            "from_broadcaster_user_login".to_string(),
            "from_broadcaster_user_name".to_string(),
            "to_broadcaster_user_id".to_string(),
            "to_broadcaster_user_login".to_string(),
            "to_broadcaster_user_name".to_string(),
            "viewers".to_string(),
        ]
    );
}

#[test]
fn factory_declares_the_message_input() {
    let f = factory();
    let c = f
        .create_component(&Kind("TwitchPublisher".to_string()), &"B".to_string())
        .unwrap();
    assert!(c.outputs.is_empty());
    assert_eq!(c.inputs.len(), 1);
    assert_eq!(c.inputs[0].id.name, "message");
    assert_eq!(
        c.inputs[0].property_names,
        vec![
            "from_broadcaster_user_login".to_string(),
            "from_broadcaster_user_id".to_string(),
            "viewers".to_string(),
        ]
    );
}

#[test]
fn tray_menu_follows_visibility() {
    assert_eq!(MenuMode::for_visibility(true), MenuMode::Hide);
    assert_eq!(MenuMode::for_visibility(false), MenuMode::Open);
    assert_eq!(MenuMode::Hide.menu_id(), "hide");
    assert_eq!(MenuMode::Hide.menu_label(), "Hide");
    assert_eq!(MenuMode::Open.menu_id(), "open");
    assert_eq!(MenuMode::Open.menu_label(), "Open");
}
