use mr_damian::assignment::{project, Assignment};
use mr_damian::error::MrDamianError;
use mr_damian::message::{Message, Property};

fn raid_message() -> Message {
    let mut m = Message::new();
    m.insert("event".to_string(), Property::Text("raid".to_string()));
    m.insert(
        "from_broadcaster_user_login".to_string(),
        Property::Text("alice".to_string()),
    );
    m.insert(
        "from_broadcaster_user_id".to_string(),
        Property::Text("42".to_string()),
    );
    m.insert("viewers".to_string(), Property::I64(7));
    m
}

#[test]
fn projection_keeps_exactly_the_assigned_keys() {
    let m = raid_message();
    let mut a = Assignment::new();
    a.insert("login".to_string(), "from_broadcaster_user_login".to_string());
    a.insert("count".to_string(), "viewers".to_string());

    let out = project(&m, &a).expect("projection should succeed");
    assert_eq!(out.num_entries(), 2);
    assert!(matches!(
        out.get(&"login".to_string()),
        Some(Property::Text(s)) if s == "alice"
    ));
    assert!(matches!(out.get(&"count".to_string()), Some(Property::I64(7))));
    // properties not referenced by the assignment are dropped
    assert!(out.get(&"event".to_string()).is_none());
    assert!(out.get(&"viewers".to_string()).is_none());
}

#[test]
fn projection_renames_per_entry() {
    let m = raid_message();
    let mut a = Assignment::new();
    a.insert(
        "from_broadcaster_user_id".to_string(),
        "from_broadcaster_user_id".to_string(),
    );
    let out = project(&m, &a).expect("projection should succeed");
    assert!(matches!(
        out.get(&"from_broadcaster_user_id".to_string()),
        Some(Property::Text(s)) if s == "42"
    ));
}

#[test]
fn projection_fails_on_missing_producer_key() {
    let m = raid_message();
    let mut a = Assignment::new();
    a.insert("count".to_string(), "viewer_count".to_string());
    let err = project(&m, &a).expect_err("absent producer key must fail");
    assert!(err == MrDamianError::MessageKeyNotFound);
}

#[test]
fn empty_assignment_projects_to_empty_message() {
    let m = raid_message();
    let a = Assignment::new();
    let out = project(&m, &a).expect("empty projection succeeds");
    assert_eq!(out.num_entries(), 0);
}

#[test]
fn message_insert_replaces_existing_key() {
    let mut m = Message::new();
    m.insert("viewers".to_string(), Property::I64(1));
    m.insert("viewers".to_string(), Property::I64(2));
    assert_eq!(m.num_entries(), 1);
    assert!(matches!(m.get(&"viewers".to_string()), Some(Property::I64(2))));
}

#[test]
fn error_messages_are_stable() {
    assert_eq!(
        MrDamianError::MessageKeyNotFound.message(),
        "message key not found"
    );
    assert_eq!(
        MrDamianError::PortNotFound("raid".to_string()).message(),
        "port not found"
    );
    assert_eq!(MrDamianError::InvalidComponent.message(), "invalid component");
    assert_eq!(MrDamianError::WindowNotFound.message(), "window not found");
}
