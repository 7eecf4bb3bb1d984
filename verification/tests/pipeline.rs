use mr_damian::assignment::Assignment;
use mr_damian::editor::{Edge, EdgeData, EditorRepository};
use mr_damian::error::MrDamianError;
use mr_damian::factory::factory;
use mr_damian::message::Property;
use mr_damian::model::{Component, Connection, InputPortID, Kind, OutputPortID, Pipeline};
use mr_damian::publisher::{accept_packet, publisher_actions, PublisherAction};
use mr_damian::repository::{EditingPipeline, PipelineRepositories, RunningPipeline};
use mr_damian::subscriber::{RaidEvent, SubscriberAction, SubscriberEvent, SubscriberProcess};

fn component(id: &str, kind: &str) -> Component {
    factory()
        .create_component(&Kind(kind.to_string()), &id.to_string())
        .unwrap_or(Component {
            id: id.to_string(),
            kind: Kind(kind.to_string()),
            inputs: vec![],
            outputs: vec![],
        })
}

fn raid_edge(id: &str, source: &str, target: &str, keys: &[(&str, &str)]) -> Connection {
    let mut assignment = Assignment::new();
    for (ck, pk) in keys {
        assignment.insert(ck.to_string(), pk.to_string());
    }
    Connection {
        id: id.to_string(),
        source: OutputPortID {
            parent: source.to_string(),
            name: "raid".to_string(),
        },
        target: InputPortID {
            parent: target.to_string(),
            name: "message".to_string(),
        },
        assignment,
    }
}

const IDENTITY_KEYS: &[(&str, &str)] = &[
    ("from_broadcaster_user_login", "from_broadcaster_user_login"),
    ("from_broadcaster_user_id", "from_broadcaster_user_id"),
    ("viewers", "viewers"),
];

fn raid_event() -> RaidEvent {
    RaidEvent {
        from_broadcaster_user_id: "42".to_string(),
        from_broadcaster_user_login: "alice".to_string(),
        from_broadcaster_user_name: "Alice".to_string(),
        to_broadcaster_user_id: "99".to_string(),
        to_broadcaster_user_login: "bob".to_string(),
        to_broadcaster_user_name: "Bob".to_string(),
        viewers: 7,
    }
}

#[test]
fn raid_end_to_end() {
    // build {A: Subscriber, B: Publisher} with the edge A.raid -> B.message
    let description = Pipeline {
        components: vec![component("A", "TwitchSubscriber"), component("B", "TwitchPublisher")],
        connections: vec![raid_edge("e1", "A", "B", IDENTITY_KEYS)],
    };
    let mut handles = factory().create_pipeline(&description);
    assert_eq!(handles.instances.len(), 2);
    let a = 0;
    let b = 1;
    assert_eq!(handles.instances[a].id, "A");
    assert_eq!(handles.instances[b].id, "B");

    // feed the subscriber a Welcome, then a raid notification
    let mut subscriber = SubscriberProcess::new();
    let actions = subscriber
        .handle_event(SubscriberEvent::Session {
            session_id: "S1".to_string(),
            reconnect_url: None,
        })
        .unwrap();
    assert!(matches!(
        &actions[0],
        SubscriberAction::CreateSubscription { session_id } if session_id == "S1"
    ));

    let actions = subscriber
        .handle_event(SubscriberEvent::Raid(raid_event()))
        .unwrap();
    let emitted = match actions.into_iter().next().unwrap() {
        SubscriberAction::Emit(p) => p,
        other => panic!("expected an emitted packet, got {:?}", other),
    };

    // route it through the fabric and run the publisher's validation
    handles.fabric.send(a, emitted).unwrap();
    let delivered = handles.fabric.conns[b].receive().expect("delivered packet");
    assert_eq!(delivered.port, "message");
    let claim = accept_packet(&delivered).unwrap().expect("a valid claim");
    assert_eq!(claim.from_broadcaster_user_login, "alice");
    assert_eq!(claim.viewers, 7);

    // with the user and channel resolved, the publisher posts the
    // announcement, then the shoutout
    let actions = publisher_actions(&claim, &"alice".to_string(), &"Tetris".to_string());
    match &actions[0] {
        PublisherAction::Announce { message } => {
            assert!(message.contains("alice"));
            assert!(message.contains('7'));
            assert!(message.contains("Tetris"));
        }
        other => panic!("expected the announcement first, got {:?}", other),
    }
    assert!(matches!(
        &actions[1],
        PublisherAction::Shoutout { to_broadcaster_user_id } if to_broadcaster_user_id == "42"
    ));
}

#[test]
fn missing_key_fails_the_edge_and_leaves_the_subscriber_alive() {
    // the assignment references viewer_count, which raid messages lack
    let description = Pipeline {
        components: vec![component("A", "TwitchSubscriber"), component("B", "TwitchPublisher")],
        connections: vec![raid_edge(
            "e1",
            "A",
            "B",
            &[("viewers", "viewer_count")],
        )],
    };
    let mut handles = factory().create_pipeline(&description);

    let mut subscriber = SubscriberProcess::new();
    let actions = subscriber
        .handle_event(SubscriberEvent::Raid(raid_event()))
        .unwrap();
    let emitted = match actions.into_iter().next().unwrap() {
        SubscriberAction::Emit(p) => p,
        other => panic!("expected an emitted packet, got {:?}", other),
    };

    let err = handles.fabric.send(0, emitted).unwrap_err();
    assert!(err == MrDamianError::MessageKeyNotFound);
    // nothing was delivered to the publisher
    assert!(handles.fabric.conns[1].receive().is_none());
    // and the subscriber keeps running: the next notification still emits
    let actions = subscriber
        .handle_event(SubscriberEvent::Raid(raid_event()))
        .unwrap();
    assert_eq!(actions.len(), 1);
}

#[test]
fn unknown_kind_is_skipped_and_the_rest_runs() {
    let description = Pipeline {
        components: vec![component("A", "TwitchSubscriber"), component("X", "NoSuchKind")],
        connections: vec![],
    };
    let handles = factory().create_pipeline(&description);
    assert_eq!(handles.instances.len(), 1);
    assert_eq!(handles.instances[0].id, "A");
    assert_eq!(handles.instances[0].kind.0, "TwitchSubscriber");
}

#[test]
fn dangling_and_self_loop_edges_are_skipped() {
    let description = Pipeline {
        components: vec![component("A", "TwitchSubscriber"), component("B", "TwitchPublisher")],
        connections: vec![
            raid_edge("dangling", "A", "C", IDENTITY_KEYS),
            raid_edge("self_loop", "B", "B", IDENTITY_KEYS),
        ],
    };
    let mut handles = factory().create_pipeline(&description);
    // neither edge was wired: a send on A's output finds no attached port
    let mut m = mr_damian::message::Message::new();
    m.insert("viewers".to_string(), Property::I64(1));
    let err = handles
        .fabric
        .send(
            0,
            mr_damian::message::Packet {
                port: "raid".to_string(),
                message: m,
            },
        )
        .unwrap_err();
    assert!(err == MrDamianError::PortNotFound("raid".to_string()));
}

#[test]
fn fanout_to_two_publishers() {
    let description = Pipeline {
        components: vec![
            component("A", "TwitchSubscriber"),
            component("B1", "TwitchPublisher"),
            component("B2", "TwitchPublisher"),
        ],
        connections: vec![
            raid_edge("e1", "A", "B1", IDENTITY_KEYS),
            raid_edge("e2", "A", "B2", IDENTITY_KEYS),
        ],
    };
    let mut handles = factory().create_pipeline(&description);

    let mut subscriber = SubscriberProcess::new();
    let actions = subscriber
        .handle_event(SubscriberEvent::Raid(raid_event()))
        .unwrap();
    let emitted = match actions.into_iter().next().unwrap() {
        SubscriberAction::Emit(p) => p,
        other => panic!("expected an emitted packet, got {:?}", other),
    };
    handles.fabric.send(0, emitted).unwrap();

    for consumer in [1, 2] {
        let delivered = handles.fabric.conns[consumer]
            .receive()
            .expect("each publisher gets one packet");
        let claim = accept_packet(&delivered).unwrap().expect("a valid claim");
        let actions = publisher_actions(&claim, &"alice".to_string(), &"Tetris".to_string());
        assert_eq!(actions.len(), 2);
        assert!(handles.fabric.conns[consumer].receive().is_none());
    }
}

#[test]
fn rebuild_swaps_description_and_hands_back_the_old_pipeline() {
    let registry = factory();
    let mut running = RunningPipeline::new(&registry);
    assert!(running.get().components.is_empty());

    let description = Pipeline {
        components: vec![component("A", "TwitchSubscriber"), component("B", "TwitchPublisher")],
        connections: vec![raid_edge("e1", "A", "B", IDENTITY_KEYS)],
    };
    let previous = running.set(&registry, description);
    // the initial build owned no tasks
    assert_eq!(previous.instances.len(), 0);
    // after set, get returns the new description
    let seen = running.get();
    assert_eq!(seen.components.len(), 2);
    assert_eq!(seen.components[0].id, "A");
    assert_eq!(seen.connections.len(), 1);

    // an abortive rebuild to the empty description hands the whole running
    // pipeline back for the runtime layer to abort
    let previous = running.set(&registry, Pipeline::empty());
    assert_eq!(previous.instances.len(), 2);
    assert_eq!(previous.instances[0].id, "A");
    assert_eq!(previous.instances[1].id, "B");
    assert!(running.get().components.is_empty());
}

#[test]
fn editing_creates_components_with_fresh_ids() {
    let registry = factory();
    let mut editing = EditingPipeline::new();
    let id = editing
        .create_component(&registry, &Kind("TwitchSubscriber".to_string()))
        .expect("a registered kind");
    assert_eq!(id.len(), 26);
    let other = editing
        .create_component(&registry, &Kind("TwitchPublisher".to_string()))
        .expect("a registered kind");
    assert_ne!(id, other);
    assert!(editing
        .create_component(&registry, &Kind("NoSuchKind".to_string()))
        .is_none());
    let description = editing.get();
    assert_eq!(description.components.len(), 2);
    assert_eq!(description.components[0].id, id);
    assert_eq!(description.components[0].kind.0, "TwitchSubscriber");
}

#[test]
fn repositories_start_empty() {
    let repos = PipelineRepositories::new();
    assert!(repos.running.get().components.is_empty());
    assert!(repos.editing.get().components.is_empty());
}

#[test]
fn editor_edges_round_trip() {
    let mut editor = EditorRepository::new();
    editor.add_edge(
        "A".to_string(),
        "B".to_string(),
        "raid".to_string(),
        "message".to_string(),
    );
    editor.add_edge(
        "A".to_string(),
        "C".to_string(),
        "raid".to_string(),
        "message".to_string(),
    );
    let edges = editor.get();
    assert_eq!(edges.len(), 2);
    assert_eq!(edges[0].id.len(), 26);
    assert_eq!(edges[0].source, "A");
    assert_eq!(edges[0].target, "B");
    assert_eq!(edges[0].source_handle, "raid");
    assert_eq!(edges[0].target_handle, "message");

    let mut assignment = Assignment::new();
    assignment.insert("viewers".to_string(), "viewers".to_string());
    let edge_id = edges[0].id.clone();
    editor.set_assignment(&edge_id, &assignment);
    let edges = editor.get();
    assert_eq!(edges[0].data.assign.num_entries(), 1);
    assert_eq!(edges[1].data.assign.num_entries(), 0);

    editor.remove_edge(
        &"A".to_string(),
        &"B".to_string(),
        &"raid".to_string(),
        &"message".to_string(),
    );
    let edges = editor.get();
    assert_eq!(edges.len(), 1);
    assert_eq!(edges[0].target, "C");
}

#[test]
fn editor_edge_becomes_a_description_connection() {
    let mut assignment = Assignment::new();
    assignment.insert("viewers".to_string(), "viewers".to_string());
    let edge = Edge {
        id: "e1".to_string(),
        label: None,
        source: "A".to_string(),
        target: "B".to_string(),
        source_handle: "raid".to_string(),
        target_handle: "message".to_string(),
        data: EdgeData { assign: assignment },
    };
    let connection = edge.into_connection();
    assert_eq!(connection.id, "e1");
    assert_eq!(connection.source.parent, "A");
    assert_eq!(connection.source.name, "raid");
    assert_eq!(connection.target.parent, "B");
    assert_eq!(connection.target.name, "message");
    assert_eq!(connection.assignment.num_entries(), 1);
}

#[test]
fn duplicate_component_ids_build_once() {
    let description = Pipeline {
        components: vec![
            component("A", "TwitchSubscriber"),
            component("A", "TwitchPublisher"),
            component("B", "TwitchPublisher"),
        ],
        connections: vec![],
    };
    let handles = factory().create_pipeline(&description);
    assert_eq!(handles.instances.len(), 2);
    assert_eq!(handles.instances[0].id, "A");
    assert_eq!(handles.instances[0].kind.0, "TwitchSubscriber");
    assert_eq!(handles.instances[1].id, "B");
}

#[test]
fn repeated_edges_append_to_the_fanout_list() {
    // the same output wired twice to the same consumer delivers twice
    let description = Pipeline {
        components: vec![component("A", "TwitchSubscriber"), component("B", "TwitchPublisher")],
        connections: vec![
            raid_edge("first", "A", "B", IDENTITY_KEYS),
            raid_edge("second", "A", "B", &[("viewers", "viewers")]),
        ],
    };
    let mut handles = factory().create_pipeline(&description);

    let mut subscriber = SubscriberProcess::new();
    let actions = subscriber
        .handle_event(SubscriberEvent::Raid(raid_event()))
        .unwrap();
    let emitted = match actions.into_iter().next().unwrap() {
        SubscriberAction::Emit(p) => p,
        other => panic!("expected an emitted packet, got {:?}", other),
    };
    handles.fabric.send(0, emitted).unwrap();

    let first = handles.fabric.conns[1].receive().expect("first delivery");
    assert_eq!(first.message.num_entries(), 3);
    let second = handles.fabric.conns[1].receive().expect("second delivery");
    assert_eq!(second.message.num_entries(), 1);
    assert!(matches!(
        second.message.get(&"viewers".to_string()),
        Some(Property::I64(7))
    ));
    assert!(handles.fabric.conns[1].receive().is_none());
}

#[test]
fn running_pipeline_routes_by_the_current_description() {
    let registry = factory();
    let mut running = RunningPipeline::new(&registry);
    assert_eq!(running.instance_count(), 0);
    assert!(!running.saturated());

    let description = Pipeline {
        components: vec![component("A", "TwitchSubscriber"), component("B", "TwitchPublisher")],
        connections: vec![raid_edge("e1", "A", "B", IDENTITY_KEYS)],
    };
    running.set(&registry, description);
    assert_eq!(running.instance_count(), 2);
    assert_eq!(running.instance_kind(0), "TwitchSubscriber");
    assert_eq!(running.instance_kind(1), "TwitchPublisher");

    let mut subscriber = SubscriberProcess::new();
    let actions = subscriber
        .handle_event(SubscriberEvent::Raid(raid_event()))
        .unwrap();
    let emitted = match actions.into_iter().next().unwrap() {
        SubscriberAction::Emit(p) => p,
        other => panic!("expected an emitted packet, got {:?}", other),
    };
    running.route(0, emitted).unwrap();
    let delivered = running.receive_at(1).expect("the publisher's packet");
    assert_eq!(delivered.port, "message");
    assert!(running.receive_at(1).is_none());
    assert!(running.receive_at(0).is_none());
}
