use mr_damian::assignment::Assignment;
use mr_damian::connection::Fabric;
use mr_damian::error::MrDamianError;
use mr_damian::message::{Message, Packet, Property};

fn identity_assignment(keys: &[&str]) -> Assignment {
    let mut a = Assignment::new();
    for k in keys {
        a.insert(k.to_string(), k.to_string());
    }
    a
}

fn packet(port: &str, login: &str, viewers: i64) -> Packet {
    let mut m = Message::new();
    m.insert("login".to_string(), Property::Text(login.to_string()));
    m.insert("viewers".to_string(), Property::I64(viewers));
    Packet {
        port: port.to_string(),
        message: m,
    }
}

#[test]
fn fifo_per_edge() {
    let mut fabric = Fabric::new();
    let producer = fabric.add_connection();
    let consumer = fabric.add_connection();
    fabric.connect(
        producer,
        consumer,
        &"out".to_string(),
        &"in".to_string(),
        identity_assignment(&["login", "viewers"]),
    );

    fabric.send(producer, packet("out", "alice", 1)).unwrap();
    fabric.send(producer, packet("out", "bob", 2)).unwrap();

    let first = fabric.conns[consumer].receive().expect("first packet");
    let second = fabric.conns[consumer].receive().expect("second packet");
    assert_eq!(first.port, "in");
    assert!(matches!(first.message.get(&"login".to_string()), Some(Property::Text(s)) if s == "alice"));
    assert!(matches!(second.message.get(&"login".to_string()), Some(Property::Text(s)) if s == "bob"));
    assert!(fabric.conns[consumer].receive().is_none());
}

#[test]
fn fanout_delivers_to_every_consumer_with_its_own_assignment() {
    let mut fabric = Fabric::new();
    let producer = fabric.add_connection();
    let left = fabric.add_connection();
    let right = fabric.add_connection();

    fabric.connect(
        producer,
        left,
        &"out".to_string(),
        &"in".to_string(),
        identity_assignment(&["login"]),
    );
    let mut renaming = Assignment::new();
    renaming.insert("count".to_string(), "viewers".to_string());
    fabric.connect(producer, right, &"out".to_string(), &"in".to_string(), renaming);

    fabric.send(producer, packet("out", "alice", 7)).unwrap();

    let l = fabric.conns[left].receive().expect("left consumer packet");
    assert_eq!(l.message.num_entries(), 1);
    assert!(matches!(l.message.get(&"login".to_string()), Some(Property::Text(s)) if s == "alice"));

    let r = fabric.conns[right].receive().expect("right consumer packet");
    assert_eq!(r.message.num_entries(), 1);
    assert!(matches!(r.message.get(&"count".to_string()), Some(Property::I64(7))));
}

#[test]
fn send_on_unattached_output_fails_with_port_not_found() {
    let mut fabric = Fabric::new();
    let producer = fabric.add_connection();
    let err = fabric.send(producer, packet("nowhere", "alice", 1)).unwrap_err();
    assert!(err == MrDamianError::PortNotFound("nowhere".to_string()));
}

#[test]
fn failed_projection_enqueues_nothing_anywhere() {
    let mut fabric = Fabric::new();
    let producer = fabric.add_connection();
    let left = fabric.add_connection();
    let right = fabric.add_connection();

    fabric.connect(
        producer,
        left,
        &"out".to_string(),
        &"in".to_string(),
        identity_assignment(&["login"]),
    );
    let mut absent = Assignment::new();
    absent.insert("count".to_string(), "viewer_count".to_string());
    fabric.connect(producer, right, &"out".to_string(), &"in".to_string(), absent);

    let err = fabric.send(producer, packet("out", "alice", 7)).unwrap_err();
    assert!(err == MrDamianError::MessageKeyNotFound);
    assert!(fabric.conns[left].receive().is_none());
    assert!(fabric.conns[right].receive().is_none());
}

#[test]
fn queue_saturation_is_observable() {
    let mut fabric = Fabric::new();
    let producer = fabric.add_connection();
    let consumer = fabric.add_connection();
    fabric.connect(
        producer,
        consumer,
        &"out".to_string(),
        &"in".to_string(),
        identity_assignment(&["login"]),
    );
    for i in 0..32 {
        assert!(!fabric.conns[consumer].input.is_saturated());
        fabric.send(producer, packet("out", "alice", i)).unwrap();
    }
    assert!(fabric.conns[consumer].input.is_saturated());
    assert_eq!(fabric.conns[consumer].input.len(), 32);
}
