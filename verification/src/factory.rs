use vstd::prelude::*;

use crate::error::MrDamianError;
use crate::model::Candidate;
use crate::model::Component;
use crate::model::InputPortID;
use crate::model::Kind;
use crate::model::OutputPortID;
use crate::model::PortMetaValue;
use crate::model::input_views;
use crate::model::output_views;

verus! {

/// A port a component kind declares: the port name and the property names
/// that flow through it.
#[derive(Debug)]
pub struct PortSpec {
    pub name: String,
    pub property_names: Vec<String>,
}

/// The spec value of a declared port of a kind.
#[verifier::ext_equal]
pub ghost struct PortSpecValue {
    pub name: Seq<char>,
    pub property_names: Seq<Seq<char>>,
}

impl View for PortSpec {
    type V = PortSpecValue;

    open spec fn view(&self) -> PortSpecValue {
        PortSpecValue {
            name: self.name@,
            property_names: self.property_names@.map_values(|s: String| s@),
        }
    }
}

/// One registered component kind: its kind string, its editor label, and
/// the ports an instance of it declares.
#[derive(Debug)]
pub struct FactoryEntry {
    pub kind: String,
    pub label: String,
    pub inputs: Vec<PortSpec>,
    pub outputs: Vec<PortSpec>,
}

/// The spec value of a registry entry.
#[verifier::ext_equal]
pub ghost struct FactoryEntryValue {
    pub kind: Seq<char>,
    pub label: Seq<char>,
    pub inputs: Seq<PortSpecValue>,
    pub outputs: Seq<PortSpecValue>,
}

/// The spec values of a list of port declarations.
pub open spec fn port_spec_views(s: Seq<PortSpec>) -> Seq<PortSpecValue> {
    s.map_values(|p: PortSpec| p@)
}

impl View for FactoryEntry {
    type V = FactoryEntryValue;

    open spec fn view(&self) -> FactoryEntryValue {
        FactoryEntryValue {
            kind: self.kind@,
            label: self.label@,
            inputs: port_spec_views(self.inputs@),
            outputs: port_spec_views(self.outputs@),
        }
    }
}

/// The spec values of a list of registry entries.
pub open spec fn entry_views(s: Seq<FactoryEntry>) -> Seq<FactoryEntryValue> {
    s.map_values(|e: FactoryEntry| e@)
}

/// The first registry entry carrying a kind, searched front to back.
pub open spec fn find_entry(s: Seq<FactoryEntryValue>, kind: Seq<char>) -> Option<
    FactoryEntryValue,
>
    decreases s.len(),
{
    if s.len() == 0 {
        None
    } else if s[0].kind == kind {
        Some(s[0])
    } else {
        find_entry(s.drop_first(), kind)
    }
}

/// The declared ports of a kind, addressed under a concrete component id.
pub open spec fn ports_with_parent(s: Seq<PortSpecValue>, parent: Seq<char>) -> Seq<
    PortMetaValue,
> {
    s.map_values(
        |p: PortSpecValue| PortMetaValue {
            parent: parent,
            name: p.name,
            property_names: p.property_names,
        },
    )
}

/// The registry of component kinds the engine can instantiate.
#[derive(Debug)]
pub struct Factory {
    entries: Vec<FactoryEntry>,
}

impl View for Factory {
    type V = Seq<FactoryEntryValue>;

    closed spec fn view(&self) -> Seq<FactoryEntryValue> {
        entry_views(self.entries@)
    }
}

impl Factory {
    pub fn new(entries: Vec<FactoryEntry>) -> (r: Self)
        ensures
            r@ == entry_views(entries@),
    {
        Factory { entries }
    }

    /// The registered kinds, advertised to the editor.
    pub fn candidates(&self) -> (r: Vec<Candidate>)
        ensures
            r@.len() == self@.len(),
            forall|i: int| 0 <= i < r@.len() ==> (#[trigger] r@[i]).kind.0@ == self@[i].kind
                && r@[i].label@ == self@[i].label,
    {
        let mut r: Vec<Candidate> = Vec::new();
        let n = self.entries.len();
        let mut i: usize = 0;
        while i < n
            invariant
                n == self.entries@.len(),
                i <= n,
                r@.len() == i,
                forall|j: int| 0 <= j < i ==> (#[trigger] r@[j]).kind.0@ == entry_views(
                    self.entries@,
                )[j].kind && r@[j].label@ == entry_views(self.entries@)[j].label,
            decreases n - i,
        {
            let e = &self.entries[i];
            r.push(Candidate { kind: Kind(e.kind.clone()), label: e.label.clone() });
            i += 1;
        }
        r
    }

    /// Resolves a kind and yields the component entry an instance with the
    /// given id declares: the registered ports, each addressed under `id`.
    /// Fails with `InvalidComponent` exactly when the kind is unregistered.
    pub fn create_component(&self, kind: &Kind, id: &String) -> (r: Result<
        Component,
        MrDamianError,
    >)
        ensures
            match r {
                Ok(c) => {
                    let e = find_entry(self@, kind.0@);
                    &&& e is Some
                    &&& c@.id == id@
                    &&& c@.kind == kind.0@
                    &&& input_views(c.inputs@) == ports_with_parent(e->Some_0.inputs, id@)
                    &&& output_views(c.outputs@) == ports_with_parent(e->Some_0.outputs, id@)
                },
                Err(e) => e == MrDamianError::InvalidComponent && find_entry(self@, kind.0@)
                    is None,
            },
    {
        let n = self.entries.len();
        let mut i: usize = 0;
        proof {
            assert(entry_views(self.entries@).skip(0) =~= entry_views(self.entries@));
        }
        while i < n
            invariant
                n == self.entries@.len(),
                i <= n,
                find_entry(entry_views(self.entries@), kind.0@) == find_entry(
                    entry_views(self.entries@).skip(i as int),
                    kind.0@,
                ),
            decreases n - i,
        {
            let e = &self.entries[i];
            proof {
                assert(entry_views(self.entries@).skip(i as int)[0] == entry_views(
                    self.entries@,
                )[i as int]);
                assert(entry_views(self.entries@).skip(i as int).drop_first() =~= entry_views(
                    self.entries@,
                ).skip(i as int + 1));
            }
            if e.kind.eq(&kind.0) {
                let mut inputs: Vec<crate::model::InputPort> = Vec::new();
                let ni = e.inputs.len();
                let mut j: usize = 0;
                while j < ni
                    invariant
                        ni == e.inputs@.len(),
                        j <= ni,
                        inputs@.len() == j,
                        input_views(inputs@) == ports_with_parent(
                            port_spec_views(e.inputs@),
                            id@,
                        ).take(j as int),
                    decreases ni - j,
                {
                    let p = &e.inputs[j];
                    inputs.push(
                        crate::model::InputPort {
                            id: InputPortID { parent: id.clone(), name: p.name.clone() },
                            property_names: crate::model::clone_names(&p.property_names),
                        },
                    );
                    proof {
                        assert(input_views(inputs@) =~= ports_with_parent(
                            port_spec_views(e.inputs@),
                            id@,
                        ).take(j as int + 1));
                    }
                    j += 1;
                }
                let mut outputs: Vec<crate::model::OutputPort> = Vec::new();
                let no = e.outputs.len();
                let mut k: usize = 0;
                while k < no
                    invariant
                        no == e.outputs@.len(),
                        k <= no,
                        outputs@.len() == k,
                        output_views(outputs@) == ports_with_parent(
                            port_spec_views(e.outputs@),
                            id@,
                        ).take(k as int),
                    decreases no - k,
                {
                    let p = &e.outputs[k];
                    outputs.push(
                        crate::model::OutputPort {
                            id: OutputPortID { parent: id.clone(), name: p.name.clone() },
                            property_names: crate::model::clone_names(&p.property_names),
                        },
                    );
                    proof {
                        assert(output_views(outputs@) =~= ports_with_parent(
                            port_spec_views(e.outputs@),
                            id@,
                        ).take(k as int + 1));
                    }
                    k += 1;
                }
                proof {
                    assert(ports_with_parent(port_spec_views(e.inputs@), id@).take(ni as int)
                        =~= ports_with_parent(port_spec_views(e.inputs@), id@));
                    assert(ports_with_parent(port_spec_views(e.outputs@), id@).take(no as int)
                        =~= ports_with_parent(port_spec_views(e.outputs@), id@));
                }
                return Ok(
                    Component { id: id.clone(), kind: Kind(e.kind.clone()), inputs, outputs },
                );
            }
            i += 1;
        }
        proof {
            assert(entry_views(self.entries@).skip(n as int) =~= Seq::<
                FactoryEntryValue,
            >::empty());
        }
        Err(MrDamianError::InvalidComponent)
    }
}

/// The standard registry: the publisher kind, then the subscriber kind.
pub fn factory() -> (r: Factory)
    ensures
        r@ == seq![crate::publisher::publisher_entry(), crate::subscriber::subscriber_entry()],
{
    let mut entries: Vec<FactoryEntry> = Vec::new();
    entries.push(crate::publisher::PublisherFactory::entry());
    entries.push(crate::subscriber::SubscriberFactory::entry());
    proof {
        assert(entry_views(entries@) =~= seq![
            crate::publisher::publisher_entry(),
            crate::subscriber::subscriber_entry(),
        ]);
    }
    Factory::new(entries)
}

} // verus!
