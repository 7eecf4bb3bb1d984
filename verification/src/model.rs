use vstd::prelude::*;

use crate::assignment::Assignment;

verus! {

/// The registered kind of a component, an opaque string matched against the
/// factory registry.
#[derive(Debug)]
pub struct Kind(pub String);

impl Clone for Kind {
    fn clone(&self) -> (r: Self)
        ensures
            r == *self,
    {
        Kind(self.0.clone())
    }
}

/// A component kind the factory can instantiate, advertised to the editor.
#[derive(Debug)]
pub struct Candidate {
    pub kind: Kind,
    pub label: String,
}

/// The address of a declared input port: owning component id and port name.
#[derive(Debug)]
pub struct InputPortID {
    pub parent: String,
    pub name: String,
}

impl Clone for InputPortID {
    fn clone(&self) -> (r: Self)
        ensures
            r == *self,
    {
        InputPortID { parent: self.parent.clone(), name: self.name.clone() }
    }
}

/// The address of a declared output port: owning component id and port name.
#[derive(Debug)]
pub struct OutputPortID {
    pub parent: String,
    pub name: String,
}

impl Clone for OutputPortID {
    fn clone(&self) -> (r: Self)
        ensures
            r == *self,
    {
        OutputPortID { parent: self.parent.clone(), name: self.name.clone() }
    }
}

/// Declared metadata of an input port: its address and the property names
/// its consumer expects.
#[derive(Debug)]
pub struct InputPort {
    pub id: InputPortID,
    pub property_names: Vec<String>,
}

/// Declared metadata of an output port: its address and the property names
/// its producer emits.
#[derive(Debug)]
pub struct OutputPort {
    pub id: OutputPortID,
    pub property_names: Vec<String>,
}

/// The spec value of a declared port: parent id, port name, and the
/// declared property names.
#[verifier::ext_equal]
pub ghost struct PortMetaValue {
    pub parent: Seq<char>,
    pub name: Seq<char>,
    pub property_names: Seq<Seq<char>>,
}

impl View for InputPort {
    type V = PortMetaValue;

    open spec fn view(&self) -> PortMetaValue {
        PortMetaValue {
            parent: self.id.parent@,
            name: self.id.name@,
            property_names: self.property_names@.map_values(|s: String| s@),
        }
    }
}

impl View for OutputPort {
    type V = PortMetaValue;

    open spec fn view(&self) -> PortMetaValue {
        PortMetaValue {
            parent: self.id.parent@,
            name: self.id.name@,
            property_names: self.property_names@.map_values(|s: String| s@),
        }
    }
}


/// The spec values of a list of input ports.
pub open spec fn input_views(s: Seq<InputPort>) -> Seq<PortMetaValue> {
    s.map_values(|p: InputPort| p@)
}

/// The spec values of a list of output ports.
pub open spec fn output_views(s: Seq<OutputPort>) -> Seq<PortMetaValue> {
    s.map_values(|p: OutputPort| p@)
}

/// Copies a list of property names.
pub fn clone_names(v: &Vec<String>) -> (r: Vec<String>)
    ensures
        r@ == v@,
{
    let mut r: Vec<String> = Vec::new();
    let n = v.len();
    let mut i: usize = 0;
    while i < n
        invariant
            n == v@.len(),
            i <= n,
            r@ == v@.take(i as int),
        decreases n - i,
    {
        r.push(v[i].clone());
        proof {
            assert(r@ =~= v@.take(i as int + 1));
        }
        i += 1;
    }
    proof {
        assert(v@.take(n as int) =~= v@);
    }
    r
}

impl Clone for InputPort {
    fn clone(&self) -> (r: Self)
        ensures
            r@ == self@,
    {
        InputPort { id: self.id.clone(), property_names: clone_names(&self.property_names) }
    }
}

impl Clone for OutputPort {
    fn clone(&self) -> (r: Self)
        ensures
            r@ == self@,
    {
        OutputPort { id: self.id.clone(), property_names: clone_names(&self.property_names) }
    }
}

/// One component entry of a pipeline description.
#[derive(Debug)]
pub struct Component {
    pub id: String,
    pub kind: Kind,
    pub inputs: Vec<InputPort>,
    pub outputs: Vec<OutputPort>,
}

/// The spec value of a component entry.
#[verifier::ext_equal]
pub ghost struct ComponentValue {
    pub id: Seq<char>,
    pub kind: Seq<char>,
    pub inputs: Seq<PortMetaValue>,
    pub outputs: Seq<PortMetaValue>,
}

impl View for Component {
    type V = ComponentValue;

    open spec fn view(&self) -> ComponentValue {
        ComponentValue {
            id: self.id@,
            kind: self.kind.0@,
            inputs: input_views(self.inputs@),
            outputs: output_views(self.outputs@),
        }
    }
}

impl Clone for Component {
    fn clone(&self) -> (r: Self)
        ensures
            r@ == self@,
    {
        let mut inputs: Vec<InputPort> = Vec::new();
        let n = self.inputs.len();
        let mut i: usize = 0;
        while i < n
            invariant
                n == self.inputs@.len(),
                i <= n,
                inputs@.len() == i,
                input_views(inputs@) == input_views(self.inputs@).take(i as int),
            decreases n - i,
        {
            inputs.push(self.inputs[i].clone());
            proof {
                assert(input_views(inputs@) =~= input_views(self.inputs@).take(i as int + 1));
            }
            i += 1;
        }
        let mut outputs: Vec<OutputPort> = Vec::new();
        let m = self.outputs.len();
        let mut j: usize = 0;
        while j < m
            invariant
                m == self.outputs@.len(),
                j <= m,
                outputs@.len() == j,
                output_views(outputs@) == output_views(self.outputs@).take(j as int),
            decreases m - j,
        {
            outputs.push(self.outputs[j].clone());
            proof {
                assert(output_views(outputs@) =~= output_views(self.outputs@).take(j as int + 1));
            }
            j += 1;
        }
        proof {
            assert(input_views(self.inputs@).take(n as int)
                =~= input_views(self.inputs@));
            assert(output_views(self.outputs@).take(m as int)
                =~= output_views(self.outputs@));
        }
        let r = Component {
            id: self.id.clone(),
            kind: self.kind.clone(),
            inputs,
            outputs,
        };
        proof {
            assert(r@ =~= self@);
        }
        r
    }
}


/// The spec values of a list of component entries.
pub open spec fn component_views(s: Seq<Component>) -> Seq<ComponentValue> {
    s.map_values(|c: Component| c@)
}

/// One edge of a pipeline description: a wire from a producer's output port
/// to a consumer's input port, carrying the assignment projected on every
/// send along it.
#[derive(Debug)]
pub struct Connection {
    pub id: String,
    pub source: OutputPortID,
    pub target: InputPortID,
    pub assignment: Assignment,
}

/// The spec value of a description edge.
#[verifier::ext_equal]
pub ghost struct ConnectionValue {
    pub id: Seq<char>,
    pub source_parent: Seq<char>,
    pub source_name: Seq<char>,
    pub target_parent: Seq<char>,
    pub target_name: Seq<char>,
    pub assignment: Map<Seq<char>, Seq<char>>,
}

impl View for Connection {
    type V = ConnectionValue;

    open spec fn view(&self) -> ConnectionValue {
        ConnectionValue {
            id: self.id@,
            source_parent: self.source.parent@,
            source_name: self.source.name@,
            target_parent: self.target.parent@,
            target_name: self.target.name@,
            assignment: self.assignment@,
        }
    }
}

impl Connection {
    /// Well-formed: the assignment map has no duplicate consumer keys.
    pub open spec fn wf(&self) -> bool {
        self.assignment.wf()
    }
}

impl Clone for Connection {
    fn clone(&self) -> (r: Self)
        ensures
            r@ == self@,
            r.wf(),
    {
        Connection {
            id: self.id.clone(),
            source: self.source.clone(),
            target: self.target.clone(),
            assignment: self.assignment.clone(),
        }
    }
}


/// The spec values of a list of description edges.
pub open spec fn connection_views(s: Seq<Connection>) -> Seq<ConnectionValue> {
    s.map_values(|c: Connection| c@)
}

/// A pipeline description: the component entries and the edges between
/// their ports, as produced by the editor.
#[derive(Debug)]
pub struct Pipeline {
    pub components: Vec<Component>,
    pub connections: Vec<Connection>,
}

/// The spec value of a pipeline description.
#[verifier::ext_equal]
pub ghost struct PipelineValue {
    pub components: Seq<ComponentValue>,
    pub connections: Seq<ConnectionValue>,
}

impl View for Pipeline {
    type V = PipelineValue;

    open spec fn view(&self) -> PipelineValue {
        PipelineValue {
            components: component_views(self.components@),
            connections: connection_views(self.connections@),
        }
    }
}

impl Pipeline {
    /// Well-formed: every edge's assignment map has no duplicate keys.
    pub open spec fn wf(&self) -> bool {
        forall|i: int| 0 <= i < self.connections@.len() ==> (
        #[trigger] self.connections@[i]).wf()
    }

    /// The empty description: the state of the engine at startup.
    pub fn empty() -> (r: Self)
        ensures
            r@.components == Seq::<ComponentValue>::empty(),
            r@.connections == Seq::<ConnectionValue>::empty(),
            r.wf(),
    {
        proof {
            assert(component_views(Seq::<Component>::empty())
                =~= Seq::<ComponentValue>::empty());
            assert(connection_views(Seq::<Connection>::empty())
                =~= Seq::<ConnectionValue>::empty());
        }
        Pipeline { components: Vec::new(), connections: Vec::new() }
    }
}

impl Clone for Pipeline {
    fn clone(&self) -> (r: Self)
        ensures
            r@ == self@,
            self.wf() ==> r.wf(),
    {
        let mut components: Vec<Component> = Vec::new();
        let n = self.components.len();
        let mut i: usize = 0;
        while i < n
            invariant
                n == self.components@.len(),
                i <= n,
                components@.len() == i,
                component_views(components@) == component_views(self.components@).take(i as int),
            decreases n - i,
        {
            components.push(self.components[i].clone());
            proof {
                assert(component_views(components@) =~= component_views(self.components@).take(i as int + 1));
            }
            i += 1;
        }
        let mut connections: Vec<Connection> = Vec::new();
        let m = self.connections.len();
        let mut j: usize = 0;
        while j < m
            invariant
                m == self.connections@.len(),
                j <= m,
                connections@.len() == j,
                connection_views(connections@) == connection_views(self.connections@).take(j as int),
                forall|k: int| 0 <= k < connections@.len() ==> (#[trigger] connections@[k]).wf(),
            decreases m - j,
        {
            connections.push(self.connections[j].clone());
            proof {
                assert(connection_views(connections@) =~= connection_views(self.connections@).take(j as int + 1));
            }
            j += 1;
        }
        proof {
            assert(component_views(self.components@).take(n as int)
                =~= component_views(self.components@));
            assert(connection_views(self.connections@).take(m as int)
                =~= connection_views(self.connections@));
        }
        let r = Pipeline { components, connections };
        proof {
            assert(r@ =~= self@);
        }
        r
    }
}

} // verus!
