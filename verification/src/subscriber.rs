use vstd::prelude::*;

use crate::error::MrDamianError;
use crate::factory::FactoryEntry;
use crate::factory::FactoryEntryValue;
use crate::factory::PortSpec;
use crate::factory::PortSpecValue;
use crate::message::Message;
use crate::message::Packet;
use crate::message::PacketValue;
use crate::message::Property;
use crate::message::PropertyValue;

verus! {

/// Whether a string parses as a URL, as `url::Url::parse` decides it; the
/// outcome depends on the string alone.
pub uninterp spec fn url_parse_ok(s: Seq<char>) -> bool;

/// Relies on url::Url::parse: accepts exactly the strings it parses.
#[verifier::external_body]
fn check_url(s: &String) -> (r: bool)
    ensures
        r == url_parse_ok(s@),
{
    url::Url::parse(s.as_str()).is_ok()
}

/// The payload of one raid notification from the event service.
#[derive(Debug)]
pub struct RaidEvent {
    pub from_broadcaster_user_id: String,
    pub from_broadcaster_user_login: String,
    pub from_broadcaster_user_name: String,
    pub to_broadcaster_user_id: String,
    pub to_broadcaster_user_login: String,
    pub to_broadcaster_user_name: String,
    pub viewers: i64,
}

/// The spec value of a raid notification.
#[verifier::ext_equal]
pub ghost struct RaidEventValue {
    pub from_broadcaster_user_id: Seq<char>,
    pub from_broadcaster_user_login: Seq<char>,
    pub from_broadcaster_user_name: Seq<char>,
    pub to_broadcaster_user_id: Seq<char>,
    pub to_broadcaster_user_login: Seq<char>,
    pub to_broadcaster_user_name: Seq<char>,
    pub viewers: int,
}

impl View for RaidEvent {
    type V = RaidEventValue;

    open spec fn view(&self) -> RaidEventValue {
        RaidEventValue {
            from_broadcaster_user_id: self.from_broadcaster_user_id@,
            from_broadcaster_user_login: self.from_broadcaster_user_login@,
            from_broadcaster_user_name: self.from_broadcaster_user_name@,
            to_broadcaster_user_id: self.to_broadcaster_user_id@,
            to_broadcaster_user_login: self.to_broadcaster_user_login@,
            to_broadcaster_user_name: self.to_broadcaster_user_name@,
            viewers: self.viewers as int,
        }
    }
}

/// One event handed to the subscriber by the event-stream layer: either a
/// classified frame of the WebSocket session, or a transport condition.
#[derive(Debug)]
pub enum SubscriberEvent {
    /// A Welcome or Reconnect frame: the session id, and the reconnect URL
    /// when the frame carries one.
    Session { session_id: String, reconnect_url: Option<String> },
    /// A channel-raid notification frame.
    Raid(RaidEvent),
    /// A revocation frame.
    Revocation,
    /// A keepalive frame.
    Keepalive,
    /// A well-formed frame of any other shape, a non-raid notification
    /// among them.
    Unknown,
    /// A frame that failed to parse.
    Malformed,
    /// The transport reported that the connection was closed.
    ConnectionClosed,
    /// The transport was reset without a closing handshake.
    ProtocolReset,
    /// The frame stream ended.
    StreamEnd,
    /// Any other transport-level message or error.
    OtherTransport,
}

/// The spec value of a subscriber event.
#[verifier::ext_equal]
pub ghost enum SubscriberEventValue {
    Session { session_id: Seq<char>, reconnect_url: Option<Seq<char>> },
    Raid(RaidEventValue),
    Revocation,
    Keepalive,
    Unknown,
    Malformed,
    ConnectionClosed,
    ProtocolReset,
    StreamEnd,
    OtherTransport,
}

impl View for SubscriberEvent {
    type V = SubscriberEventValue;

    open spec fn view(&self) -> SubscriberEventValue {
        match self {
            SubscriberEvent::Session { session_id, reconnect_url } => {
                SubscriberEventValue::Session {
                    session_id: session_id@,
                    reconnect_url: match reconnect_url {
                        Some(u) => Some(u@),
                        None => None,
                    },
                }
            },
            SubscriberEvent::Raid(r) => SubscriberEventValue::Raid(r@),
            SubscriberEvent::Revocation => SubscriberEventValue::Revocation,
            SubscriberEvent::Keepalive => SubscriberEventValue::Keepalive,
            SubscriberEvent::Unknown => SubscriberEventValue::Unknown,
            SubscriberEvent::Malformed => SubscriberEventValue::Malformed,
            SubscriberEvent::ConnectionClosed => SubscriberEventValue::ConnectionClosed,
            SubscriberEvent::ProtocolReset => SubscriberEventValue::ProtocolReset,
            SubscriberEvent::StreamEnd => SubscriberEventValue::StreamEnd,
            SubscriberEvent::OtherTransport => SubscriberEventValue::OtherTransport,
        }
    }
}

/// An action the subscriber asks the runtime layer to perform, in order.
#[derive(Debug)]
pub enum SubscriberAction {
    /// Send this packet on the local output fan-out.
    Emit(Packet),
    /// Post a create-subscription request for channel-raid-v1 bound to this
    /// session id.
    CreateSubscription { session_id: String },
    /// Open a fresh WebSocket to the event service.
    Reconnect,
}

/// The spec value of a subscriber action.
#[verifier::ext_equal]
pub ghost enum SubscriberActionValue {
    Emit(PacketValue),
    CreateSubscription(Seq<char>),
    Reconnect,
}

impl View for SubscriberAction {
    type V = SubscriberActionValue;

    open spec fn view(&self) -> SubscriberActionValue {
        match self {
            SubscriberAction::Emit(p) => SubscriberActionValue::Emit(p@),
            SubscriberAction::CreateSubscription { session_id } => {
                SubscriberActionValue::CreateSubscription(session_id@)
            },
            SubscriberAction::Reconnect => SubscriberActionValue::Reconnect,
        }
    }
}

/// The spec values of a list of actions.
pub open spec fn action_views(s: Seq<SubscriberAction>) -> Seq<SubscriberActionValue> {
    s.map_values(|a: SubscriberAction| a@)
}

/// The session state of the subscriber's protocol machine.
#[derive(Debug)]
pub struct SubscriberProcess {
    pub session_id: Option<String>,
    pub reconnect_url: Option<String>,
}

/// The spec value of the subscriber's session state.
#[verifier::ext_equal]
pub ghost struct SubscriberStateValue {
    pub session_id: Option<Seq<char>>,
    pub reconnect_url: Option<Seq<char>>,
}

impl View for SubscriberProcess {
    type V = SubscriberStateValue;

    open spec fn view(&self) -> SubscriberStateValue {
        SubscriberStateValue {
            session_id: match self.session_id {
                Some(ref s) => Some(s@),
                None => None,
            },
            reconnect_url: match self.reconnect_url {
                Some(ref s) => Some(s@),
                None => None,
            },
        }
    }
}

/// The message a raid notification is projected into: the literal key
/// mapping of the subscriber's `raid` output port, with `viewers` as a
/// 64-bit integer and every other field as text.
pub open spec fn raid_message(r: RaidEventValue) -> Map<Seq<char>, PropertyValue> {
    Map::empty()
        .insert("event"@, PropertyValue::Text("raid"@))
        .insert("from_broadcaster_user_id"@, PropertyValue::Text(r.from_broadcaster_user_id))
        .insert(
        "from_broadcaster_user_login"@,
        PropertyValue::Text(r.from_broadcaster_user_login),
    )
        .insert("from_broadcaster_user_name"@, PropertyValue::Text(r.from_broadcaster_user_name))
        .insert("to_broadcaster_user_id"@, PropertyValue::Text(r.to_broadcaster_user_id))
        .insert("to_broadcaster_user_login"@, PropertyValue::Text(r.to_broadcaster_user_login))
        .insert("to_broadcaster_user_name"@, PropertyValue::Text(r.to_broadcaster_user_name))
        .insert("viewers"@, PropertyValue::I64(r.viewers))
}

/// The result of one step of the subscriber machine: the state after the
/// event, the actions to perform, and whether the step is fatal to the
/// task.
#[verifier::ext_equal]
pub ghost struct SubscriberStep {
    pub state: SubscriberStateValue,
    pub actions: Seq<SubscriberActionValue>,
    pub failed: bool,
}

/// The subscriber's protocol machine, one event at a time.
///
/// A session frame records the session id, keeps or replaces the reconnect
/// URL, and asks for a raid subscription bound to the session; a session
/// frame whose reconnect URL does not parse is a per-event failure, logged
/// and swallowed, so it asks for nothing.  A raid notification emits one
/// packet on the `raid` output.  A closed connection is fatal.  A protocol
/// reset and the end of the stream reconnect.  Everything else is ignored.
pub open spec fn subscriber_step(
    s: SubscriberStateValue,
    ev: SubscriberEventValue,
) -> SubscriberStep {
    match ev {
        SubscriberEventValue::Session { session_id, reconnect_url } => {
            match reconnect_url {
                Some(u) => {
                    if url_parse_ok(u) {
                        SubscriberStep {
                            state: SubscriberStateValue {
                                session_id: Some(session_id),
                                reconnect_url: Some(u),
                            },
                            actions: seq![SubscriberActionValue::CreateSubscription(session_id)],
                            failed: false,
                        }
                    } else {
                        SubscriberStep {
                            state: SubscriberStateValue {
                                session_id: Some(session_id),
                                reconnect_url: s.reconnect_url,
                            },
                            actions: Seq::empty(),
                            failed: false,
                        }
                    }
                },
                None => SubscriberStep {
                    state: SubscriberStateValue {
                        session_id: Some(session_id),
                        reconnect_url: s.reconnect_url,
                    },
                    actions: seq![SubscriberActionValue::CreateSubscription(session_id)],
                    failed: false,
                },
            }
        },
        SubscriberEventValue::Raid(r) => SubscriberStep {
            state: s,
            actions: seq![
                SubscriberActionValue::Emit(
                    PacketValue { port: "raid"@, message: raid_message(r) },
                ),
            ],
            failed: false,
        },
        SubscriberEventValue::ConnectionClosed => SubscriberStep {
            state: s,
            actions: Seq::empty(),
            failed: true,
        },
        SubscriberEventValue::ProtocolReset => SubscriberStep {
            state: s,
            actions: seq![SubscriberActionValue::Reconnect],
            failed: false,
        },
        SubscriberEventValue::StreamEnd => SubscriberStep {
            state: s,
            actions: seq![SubscriberActionValue::Reconnect],
            failed: false,
        },
        _ => SubscriberStep { state: s, actions: Seq::empty(), failed: false },
    }
}

/// Builds the message a raid notification projects into.
fn build_raid_message(r: &RaidEvent) -> (m: Message)
    ensures
        m.wf(),
        m@ == raid_message(r@),
{
    let mut m = Message::new();
    m.insert(String::from_str("event"), Property::Text(String::from_str("raid")));
    m.insert(
        String::from_str("from_broadcaster_user_id"),
        Property::Text(r.from_broadcaster_user_id.clone()),
    );
    m.insert(
        String::from_str("from_broadcaster_user_login"),
        Property::Text(r.from_broadcaster_user_login.clone()),
    );
    m.insert(
        String::from_str("from_broadcaster_user_name"),
        Property::Text(r.from_broadcaster_user_name.clone()),
    );
    m.insert(
        String::from_str("to_broadcaster_user_id"),
        Property::Text(r.to_broadcaster_user_id.clone()),
    );
    m.insert(
        String::from_str("to_broadcaster_user_login"),
        Property::Text(r.to_broadcaster_user_login.clone()),
    );
    m.insert(
        String::from_str("to_broadcaster_user_name"),
        Property::Text(r.to_broadcaster_user_name.clone()),
    );
    m.insert(String::from_str("viewers"), Property::I64(r.viewers));
    m
}

impl SubscriberProcess {
    /// A fresh session: connected, not yet subscribed.
    pub fn new() -> (r: Self)
        ensures
            r@.session_id is None,
            r@.reconnect_url is None,
    {
        SubscriberProcess { session_id: None, reconnect_url: None }
    }

    /// Advances the protocol machine by one event and returns the actions
    /// the runtime layer must perform, in order; fails exactly when the
    /// event service closed the connection.
    pub fn handle_event(&mut self, ev: SubscriberEvent) -> (r: Result<
        Vec<SubscriberAction>,
        MrDamianError,
    >)
        ensures
            ({
                let step = subscriber_step(old(self)@, ev@);
                &&& final(self)@ == step.state
                &&& match r {
                    Ok(actions) => !step.failed && action_views(actions@) == step.actions
                        && (forall|k: int|
                        0 <= k < actions@.len() ==> match #[trigger] actions@[k] {
                            SubscriberAction::Emit(p) => p.wf(),
                            _ => true,
                        }),
                    Err(e) => step.failed && e == MrDamianError::ConnectionClosed && final(self)@
                        == old(self)@,
                }
            }),
    {
        match ev {
            SubscriberEvent::Session { session_id, reconnect_url } => {
                let sid = session_id.clone();
                self.session_id = Some(session_id);
                match reconnect_url {
                    Some(u) => {
                        if check_url(&u) {
                            self.reconnect_url = Some(u);
                        } else {
                            // A bad reconnect URL is a per-event failure:
                            // it is swallowed so the stream keeps flowing,
                            // and no subscription is requested.
                            let r: Vec<SubscriberAction> = Vec::new();
                            proof {
                                assert(action_views(r@) =~= Seq::<
                                    SubscriberActionValue,
                                >::empty());
                            }
                            return Ok(r);
                        }
                    },
                    None => {},
                }
                let mut r: Vec<SubscriberAction> = Vec::new();
                r.push(SubscriberAction::CreateSubscription { session_id: sid });
                proof {
                    assert(action_views(r@) =~= seq![
                        SubscriberActionValue::CreateSubscription(sid@),
                    ]);
                }
                Ok(r)
            },
            SubscriberEvent::Raid(raid) => {
                let message = build_raid_message(&raid);
                let mut r: Vec<SubscriberAction> = Vec::new();
                r.push(
                    SubscriberAction::Emit(Packet { port: String::from_str("raid"), message }),
                );
                proof {
                    assert(action_views(r@) =~= seq![
                        SubscriberActionValue::Emit(
                            PacketValue { port: "raid"@, message: raid_message(raid@) },
                        ),
                    ]);
                }
                Ok(r)
            },
            SubscriberEvent::ConnectionClosed => Err(MrDamianError::ConnectionClosed),
            SubscriberEvent::ProtocolReset | SubscriberEvent::StreamEnd => {
                let mut r: Vec<SubscriberAction> = Vec::new();
                r.push(SubscriberAction::Reconnect);
                proof {
                    assert(action_views(r@) =~= seq![SubscriberActionValue::Reconnect]);
                }
                Ok(r)
            },
            _ => {
                let r: Vec<SubscriberAction> = Vec::new();
                proof {
                    assert(action_views(r@) =~= Seq::<SubscriberActionValue>::empty());
                }
                Ok(r)
            },
        }
    }
}

/// Source isolation: a malformed frame changes nothing and produces no
/// action, and a well-formed raid notification after it emits exactly one
/// packet, carrying the raid message.
pub proof fn lemma_source_isolation(s: SubscriberStateValue, r: RaidEventValue)
    ensures
        ({
            let after_bad = subscriber_step(s, SubscriberEventValue::Malformed);
            let after_raid = subscriber_step(after_bad.state, SubscriberEventValue::Raid(r));
            &&& !after_bad.failed
            &&& after_bad.actions.len() == 0
            &&& after_bad.state == s
            &&& !after_raid.failed
            &&& after_raid.state == s
            &&& after_raid.actions.len() == 1
            &&& after_raid.actions[0] == SubscriberActionValue::Emit(
                PacketValue { port: "raid"@, message: raid_message(r) },
            )
        }),
{
}

/// The property names of the subscriber's `raid` output port.
pub open spec fn raid_property_names() -> Seq<Seq<char>> {
    seq![
        "from_broadcaster_user_id"@,
        "from_broadcaster_user_login"@,
        "from_broadcaster_user_name"@,
        "to_broadcaster_user_id"@,
        "to_broadcaster_user_login"@,
        "to_broadcaster_user_name"@,
        "viewers"@,
    ]
}

/// The registry entry of the subscriber kind.
pub open spec fn subscriber_entry() -> FactoryEntryValue {
    FactoryEntryValue {
        kind: "TwitchSubscriber"@,
        label: "Twitch Subscriber"@,
        inputs: Seq::empty(),
        outputs: seq![
            PortSpecValue { name: "raid"@, property_names: raid_property_names() },
        ],
    }
}

/// The factory of the subscriber kind: a source component with no input
/// and one `raid` output carrying the seven raid fields.
#[derive(Debug)]
pub struct SubscriberFactory {}

impl SubscriberFactory {
    pub fn component_type() -> (r: String)
        ensures
            r@ == "TwitchSubscriber"@,
    {
        String::from_str("TwitchSubscriber")
    }

    pub fn label() -> (r: String)
        ensures
            r@ == "Twitch Subscriber"@,
    {
        String::from_str("Twitch Subscriber")
    }

    /// The registry entry this kind contributes.
    pub fn entry() -> (r: FactoryEntry)
        ensures
            r@ == subscriber_entry(),
    {
        let mut names: Vec<String> = Vec::new();
        names.push(String::from_str("from_broadcaster_user_id"));
        names.push(String::from_str("from_broadcaster_user_login"));
        names.push(String::from_str("from_broadcaster_user_name"));
        names.push(String::from_str("to_broadcaster_user_id"));
        names.push(String::from_str("to_broadcaster_user_login"));
        names.push(String::from_str("to_broadcaster_user_name"));
        names.push(String::from_str("viewers"));
        proof {
            assert(names@.map_values(|s: String| s@) =~= raid_property_names());
        }
        let mut outputs: Vec<PortSpec> = Vec::new();
        outputs.push(PortSpec { name: String::from_str("raid"), property_names: names });
        let r = FactoryEntry {
            kind: String::from_str("TwitchSubscriber"),
            label: String::from_str("Twitch Subscriber"),
            inputs: Vec::new(),
            outputs,
        };
        proof {
            assert(crate::factory::port_spec_views(r.inputs@) =~= Seq::<PortSpecValue>::empty());
            assert(crate::factory::port_spec_views(r.outputs@) =~= seq![
                PortSpecValue { name: "raid"@, property_names: raid_property_names() },
            ]);
            assert(r@ =~= subscriber_entry());
        }
        r
    }
}

} // verus!
