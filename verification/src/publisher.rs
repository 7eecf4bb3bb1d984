use vstd::prelude::*;

use crate::error::MrDamianError;
use crate::factory::FactoryEntry;
use crate::factory::FactoryEntryValue;
use crate::factory::PortSpec;
use crate::factory::PortSpecValue;
use crate::message::Packet;
use crate::message::Property;
use crate::message::PropertyValue;

verus! {

/// The three properties the publisher reads from an incoming raid message.
#[derive(Debug)]
pub struct RaidClaim {
    pub from_broadcaster_user_login: String,
    pub from_broadcaster_user_id: String,
    pub viewers: i64,
}

/// Whether a message binds a key to a text property.
pub open spec fn has_text(m: Map<Seq<char>, PropertyValue>, k: Seq<char>) -> bool {
    m.contains_key(k) && m[k] is Text
}

/// Whether a message binds a key to an integer property.
pub open spec fn has_i64(m: Map<Seq<char>, PropertyValue>, k: Seq<char>) -> bool {
    m.contains_key(k) && m[k] is I64
}

/// Whether a message carries everything the publisher needs: the two text
/// ids and the integer viewer count.
pub open spec fn publisher_accepts(m: Map<Seq<char>, PropertyValue>) -> bool {
    &&& has_text(m, "from_broadcaster_user_login"@)
    &&& has_text(m, "from_broadcaster_user_id"@)
    &&& has_i64(m, "viewers"@)
}

/// Validates one incoming packet, as the publisher's handler does before
/// calling out: a packet for any port but `message` is dropped silently; a
/// packet for `message` must carry the two text ids and the integer viewer
/// count, and a missing or wrongly typed property fails the handler with
/// `MessageKeyNotFound`.
pub fn accept_packet(packet: &Packet) -> (r: Result<Option<RaidClaim>, MrDamianError>)
    requires
        packet.wf(),
    ensures
        match r {
            Ok(None) => packet.port@ != "message"@,
            Ok(Some(c)) => {
                &&& packet.port@ == "message"@
                &&& publisher_accepts(packet.message@)
                &&& PropertyValue::Text(c.from_broadcaster_user_login@) == packet.message@[
                    "from_broadcaster_user_login"@]
                &&& PropertyValue::Text(c.from_broadcaster_user_id@) == packet.message@[
                    "from_broadcaster_user_id"@]
                &&& PropertyValue::I64(c.viewers as int) == packet.message@["viewers"@]
            },
            Err(e) => e == MrDamianError::MessageKeyNotFound && packet.port@ == "message"@
                && !publisher_accepts(packet.message@),
        },
{
    if !packet.port.eq(&String::from_str("message")) {
        return Ok(None);
    }
    let login = match packet.message.get(&String::from_str("from_broadcaster_user_login")) {
        Some(Property::Text(s)) => s.clone(),
        _ => {
            return Err(MrDamianError::MessageKeyNotFound);
        },
    };
    let id = match packet.message.get(&String::from_str("from_broadcaster_user_id")) {
        Some(Property::Text(s)) => s.clone(),
        _ => {
            return Err(MrDamianError::MessageKeyNotFound);
        },
    };
    let viewers = match packet.message.get(&String::from_str("viewers")) {
        Some(Property::I64(v)) => *v,
        _ => {
            return Err(MrDamianError::MessageKeyNotFound);
        },
    };
    Ok(
        Some(
            RaidClaim {
                from_broadcaster_user_login: login,
                from_broadcaster_user_id: id,
                viewers,
            },
        ),
    )
}

/// The decimal digits of a non-negative integer, most significant first.
pub open spec fn dec_digits(n: int) -> Seq<char>
    decreases n,
{
    if n < 10 {
        seq![digit_char(n)]
    } else {
        dec_digits(n / 10).push(digit_char(n % 10))
    }
}

/// The decimal notation of an integer.
pub open spec fn dec_str(n: int) -> Seq<char> {
    if n < 0 {
        seq!['-'] + dec_digits(-n)
    } else {
        dec_digits(n)
    }
}

/// The character of one decimal digit.
pub open spec fn digit_char(d: int) -> char {
    if d == 0 {
        '0'
    } else if d == 1 {
        '1'
    } else if d == 2 {
        '2'
    } else if d == 3 {
        '3'
    } else if d == 4 {
        '4'
    } else if d == 5 {
        '5'
    } else if d == 6 {
        '6'
    } else if d == 7 {
        '7'
    } else if d == 8 {
        '8'
    } else {
        '9'
    }
}

/// One decimal digit as a string.
fn digit_string(d: u64) -> (r: String)
    requires
        d < 10,
    ensures
        r@ == seq![digit_char(d as int)],
{
    let r = if d == 0 {
        String::from_str("0")
    } else if d == 1 {
        String::from_str("1")
    } else if d == 2 {
        String::from_str("2")
    } else if d == 3 {
        String::from_str("3")
    } else if d == 4 {
        String::from_str("4")
    } else if d == 5 {
        String::from_str("5")
    } else if d == 6 {
        String::from_str("6")
    } else if d == 7 {
        String::from_str("7")
    } else if d == 8 {
        String::from_str("8")
    } else {
        String::from_str("9")
    };
    proof {
        reveal_strlit("0");
        reveal_strlit("1");
        reveal_strlit("2");
        reveal_strlit("3");
        reveal_strlit("4");
        reveal_strlit("5");
        reveal_strlit("6");
        reveal_strlit("7");
        reveal_strlit("8");
        reveal_strlit("9");
        assert(r@ =~= seq![digit_char(d as int)]);
    }
    r
}

/// The decimal notation of a non-negative 64-bit integer.
fn dec_u64(m: u64) -> (r: String)
    ensures
        r@ == dec_digits(m as int),
    decreases m,
{
    if m < 10 {
        digit_string(m)
    } else {
        let mut s = dec_u64(m / 10);
        let d = digit_string(m % 10);
        s.append(d.as_str());
        proof {
            assert(s@ =~= dec_digits((m / 10) as int).push(digit_char((m % 10) as int)));
        }
        s
    }
}

/// The decimal notation of a 64-bit integer.
pub fn i64_to_string(v: i64) -> (r: String)
    ensures
        r@ == dec_str(v as int),
{
    if v >= 0 {
        dec_u64(v as u64)
    } else {
        let m: u64 = if v == i64::MIN {
            9223372036854775808u64
        } else {
            (-v) as u64
        };
        let mut s = String::from_str("-");
        let d = dec_u64(m);
        s.append(d.as_str());
        proof {
            reveal_strlit("-");
            assert(s@ =~= seq!['-'] + dec_digits(-(v as int)));
        }
        s
    }
}

/// The announcement the publisher posts for a raid: it names the raiding
/// user, the viewer count and the game the channel was playing.
pub open spec fn announcement_text(login: Seq<char>, viewers: int, game: Seq<char>) -> Seq<
    char,
> {
    login + "さんから"@ + dec_str(viewers) + "名のRAIDを頂きました！今日は「"@ + game
        + "」を遊んでいたみたい"@
}

/// Formats the raid announcement from the resolved user login, the viewer
/// count, and the resolved game title.
pub fn announcement(login: &String, viewers: i64, game: &String) -> (r: String)
    ensures
        r@ == announcement_text(login@, viewers as int, game@),
{
    let mut s = String::new();
    s.append(login.as_str());
    s.append("さんから");
    let num = i64_to_string(viewers);
    s.append(num.as_str());
    s.append("名のRAIDを頂きました！今日は「");
    s.append(game.as_str());
    s.append("」を遊んでいたみたい");
    proof {
        assert(s@ =~= announcement_text(login@, viewers as int, game@));
    }
    s
}

/// An effect the publisher asks the runtime layer to post, in order.
#[derive(Debug)]
pub enum PublisherAction {
    /// Post this text as a chat announcement, in the primary color.
    Announce { message: String },
    /// Post a shoutout to this broadcaster id.
    Shoutout { to_broadcaster_user_id: String },
}

/// The spec value of a publisher action.
#[verifier::ext_equal]
pub ghost enum PublisherActionValue {
    Announce(Seq<char>),
    Shoutout(Seq<char>),
}

impl View for PublisherAction {
    type V = PublisherActionValue;

    open spec fn view(&self) -> PublisherActionValue {
        match self {
            PublisherAction::Announce { message } => PublisherActionValue::Announce(message@),
            PublisherAction::Shoutout { to_broadcaster_user_id } => {
                PublisherActionValue::Shoutout(to_broadcaster_user_id@)
            },
        }
    }
}

/// The spec values of a list of publisher actions.
pub open spec fn publisher_action_views(s: Seq<PublisherAction>) -> Seq<PublisherActionValue> {
    s.map_values(|a: PublisherAction| a@)
}

/// The two effects of one accepted raid, in order: the chat announcement
/// built from the resolved user login, the viewer count and the resolved
/// game title, then a shoutout to the raiding broadcaster.
pub fn publisher_actions(claim: &RaidClaim, user_login: &String, game_name: &String) -> (r: Vec<
    PublisherAction,
>)
    ensures
        publisher_action_views(r@) == seq![
            PublisherActionValue::Announce(
                announcement_text(user_login@, claim.viewers as int, game_name@),
            ),
            PublisherActionValue::Shoutout(claim.from_broadcaster_user_id@),
        ],
{
    let mut r: Vec<PublisherAction> = Vec::new();
    r.push(
        PublisherAction::Announce { message: announcement(user_login, claim.viewers, game_name) },
    );
    r.push(
        PublisherAction::Shoutout {
            to_broadcaster_user_id: claim.from_broadcaster_user_id.clone(),
        },
    );
    proof {
        assert(publisher_action_views(r@) =~= seq![
            PublisherActionValue::Announce(
                announcement_text(user_login@, claim.viewers as int, game_name@),
            ),
            PublisherActionValue::Shoutout(claim.from_broadcaster_user_id@),
        ]);
    }
    r
}

/// The property names of the publisher's `message` input port.
pub open spec fn publisher_property_names() -> Seq<Seq<char>> {
    seq!["from_broadcaster_user_login"@, "from_broadcaster_user_id"@, "viewers"@]
}

/// The registry entry of the publisher kind.
pub open spec fn publisher_entry() -> FactoryEntryValue {
    FactoryEntryValue {
        kind: "TwitchPublisher"@,
        label: "Twitch Publisher"@,
        inputs: seq![
            PortSpecValue { name: "message"@, property_names: publisher_property_names() },
        ],
        outputs: Seq::empty(),
    }
}

/// The factory of the publisher kind: a reactive sink with one `message`
/// input carrying the raiding user's login and id and the viewer count,
/// and no output.
#[derive(Debug)]
pub struct PublisherFactory {}

impl PublisherFactory {
    pub fn component_type() -> (r: String)
        ensures
            r@ == "TwitchPublisher"@,
    {
        String::from_str("TwitchPublisher")
    }

    pub fn label() -> (r: String)
        ensures
            r@ == "Twitch Publisher"@,
    {
        String::from_str("Twitch Publisher")
    }

    /// The registry entry this kind contributes.
    pub fn entry() -> (r: FactoryEntry)
        ensures
            r@ == publisher_entry(),
    {
        let mut names: Vec<String> = Vec::new();
        names.push(String::from_str("from_broadcaster_user_login"));
        names.push(String::from_str("from_broadcaster_user_id"));
        names.push(String::from_str("viewers"));
        proof {
            assert(names@.map_values(|s: String| s@) =~= publisher_property_names());
        }
        let mut inputs: Vec<PortSpec> = Vec::new();
        inputs.push(PortSpec { name: String::from_str("message"), property_names: names });
        let r = FactoryEntry {
            kind: String::from_str("TwitchPublisher"),
            label: String::from_str("Twitch Publisher"),
            inputs,
            outputs: Vec::new(),
        };
        proof {
            assert(crate::factory::port_spec_views(r.outputs@) =~= Seq::<PortSpecValue>::empty());
            assert(crate::factory::port_spec_views(r.inputs@) =~= seq![
                PortSpecValue { name: "message"@, property_names: publisher_property_names() },
            ]);
            assert(r@ =~= publisher_entry());
        }
        r
    }
}

} // verus!
