use vstd::prelude::*;

use crate::assoc::AssocList;
use crate::assoc::map_of;

verus! {

/// A typed property value carried inside a message.
#[derive(Debug)]
pub enum Property {
    Text(String),
    I64(i64),
}

/// The mathematical value of a property.
#[verifier::ext_equal]
pub ghost enum PropertyValue {
    Text(Seq<char>),
    I64(int),
}

impl View for Property {
    type V = PropertyValue;

    open spec fn view(&self) -> PropertyValue {
        match self {
            Property::Text(s) => PropertyValue::Text(s@),
            Property::I64(v) => PropertyValue::I64(*v as int),
        }
    }
}

impl Clone for Property {
    fn clone(&self) -> (r: Self)
        ensures
            r@ == self@,
    {
        match self {
            Property::Text(s) => Property::Text(s.clone()),
            Property::I64(v) => Property::I64(*v),
        }
    }
}

impl PartialEq for Property {
    fn eq(&self, other: &Self) -> (r: bool) {
        match (self, other) {
            (Property::Text(a), Property::Text(b)) => a.eq(b),
            (Property::I64(a), Property::I64(b)) => *a == *b,
            _ => false,
        }
    }
}

impl vstd::std_specs::cmp::PartialEqSpecImpl for Property {
    open spec fn obeys_eq_spec() -> bool {
        true
    }

    open spec fn eq_spec(&self, other: &Self) -> bool {
        self@ == other@
    }
}

/// A message: a map from property names to typed properties.
pub type Message = AssocList<Property>;

impl Clone for Message {
    /// A copy denoting the same map.
    fn clone(&self) -> (r: Self)
        ensures
            r@ == self@,
            r.wf(),
    {
        let mut r = Message::new();
        let n = self.num_entries();
        let mut i: usize = 0;
        while i < n
            invariant
                n == self.entry_seq().len(),
                i <= n,
                r.wf(),
                r@ == map_of(self.entry_seq().take(i as int)),
            decreases n - i,
        {
            proof {
                crate::assoc::lemma_map_of_push(
                    self.entry_seq().take(i as int),
                    self.entry_seq()[i as int],
                );
                assert(self.entry_seq().take(i as int).push(self.entry_seq()[i as int])
                    =~= self.entry_seq().take(i as int + 1));
            }
            let key = self.key_at(i).clone();
            let value = self.value_at(i).clone();
            r.insert(key, value);
            i += 1;
        }
        proof {
            assert(self.entry_seq().take(n as int) =~= self.entry_seq());
            self.lemma_view_is_map_of();
        }
        r
    }
}

/// A packet: the destination input-port name together with the message.
#[derive(Debug)]
pub struct Packet {
    pub port: String,
    pub message: Message,
}

/// The mathematical value of a packet.
#[verifier::ext_equal]
pub ghost struct PacketValue {
    pub port: Seq<char>,
    pub message: Map<Seq<char>, PropertyValue>,
}

impl View for Packet {
    type V = PacketValue;

    open spec fn view(&self) -> PacketValue {
        PacketValue { port: self.port@, message: self.message@ }
    }
}

impl Packet {
    /// Well-formed: the message map has no duplicate keys.
    pub open spec fn wf(&self) -> bool {
        self.message.wf()
    }
}

impl Clone for Packet {
    fn clone(&self) -> (r: Self)
        ensures
            r@ == self@,
            self.wf() ==> r.wf(),
    {
        Packet { port: self.port.clone(), message: self.message.clone() }
    }
}

} // verus!
