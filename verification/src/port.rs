use vstd::prelude::*;

use crate::assignment::Assignment;
use crate::assoc::AssocList;
use crate::message::Packet;
use crate::message::PacketValue;

verus! {

/// The bound of every input queue.  A send on the live pipeline suspends
/// while the destination queue holds this many packets; the queue model
/// here records completed sends, and `is_saturated` is the query the
/// runtime layer uses to apply the bound.
pub const QUEUE_CAPACITY: usize = 32;

/// The input queue of one component: packets are appended by producers and
/// taken from the front by the owning component, first in, first out.
#[derive(Debug)]
pub struct InputPort {
    queue: Vec<Packet>,
}

impl View for InputPort {
    type V = Seq<PacketValue>;

    closed spec fn view(&self) -> Seq<PacketValue> {
        self.queue@.map_values(|p: Packet| p@)
    }
}

impl InputPort {
    /// Every queued packet carries a well-formed message.
    pub closed spec fn all_wf(&self) -> bool {
        forall|i: int| 0 <= i < self.queue@.len() ==> (#[trigger] self.queue@[i]).wf()
    }

    pub fn new() -> (r: Self)
        ensures
            r@ == Seq::<PacketValue>::empty(),
            r.all_wf(),
    {
        InputPort { queue: Vec::new() }
    }

    pub fn len(&self) -> (r: usize)
        ensures
            r == self@.len(),
    {
        self.queue.len()
    }

    /// Whether the queue has reached its bound; the runtime layer suspends
    /// producers while this holds.
    pub fn is_saturated(&self) -> (r: bool)
        ensures
            r == (self@.len() >= QUEUE_CAPACITY),
    {
        self.queue.len() >= QUEUE_CAPACITY
    }

    /// Appends a packet: the model of a send that has completed.
    pub fn push(&mut self, p: Packet)
        requires
            old(self).all_wf(),
            p.wf(),
        ensures
            final(self)@ == old(self)@.push(p@),
            final(self).all_wf(),
    {
        proof {
            assert(old(self).queue@.push(p).map_values(|q: Packet| q@)
                =~= old(self).queue@.map_values(|q: Packet| q@).push(p@));
        }
        self.queue.push(p);
    }

    /// Takes the oldest packet; `None` exactly when the queue is empty.
    pub fn receive(&mut self) -> (r: Option<Packet>)
        requires
            old(self).all_wf(),
        ensures
            final(self).all_wf(),
            match r {
                Some(p) => old(self)@.len() > 0 && p@ == old(self)@[0] && p.wf()
                    && final(self)@ == old(self)@.drop_first(),
                None => old(self)@.len() == 0 && final(self)@ == old(self)@,
            },
    {
        if self.queue.len() == 0 {
            None
        } else {
            let p = self.queue.remove(0);
            proof {
                assert(self.queue@.map_values(|q: Packet| q@)
                    =~= old(self).queue@.map_values(|q: Packet| q@).drop_first());
            }
            Some(p)
        }
    }
}

/// A producer-side handle onto a consumer's input queue: the destination
/// input-port name, the index of the consumer's connection in the fabric,
/// and the assignment projected on every send.
#[derive(Debug)]
pub struct OutputPort {
    pub dest: String,
    pub target: usize,
    pub assignment: Assignment,
}

/// The fan-out table of one component: for each local output name, the
/// handles attached to it, in attachment order.
#[derive(Debug)]
pub struct OutputPorts {
    table: AssocList<Vec<OutputPort>>,
}

/// The handles attached under a local output name, or none.
pub open spec fn handles_of(m: Map<Seq<char>, Seq<OutputPort>>, k: Seq<char>) -> Seq<OutputPort> {
    if m.contains_key(k) {
        m[k]
    } else {
        Seq::empty()
    }
}

impl View for OutputPorts {
    type V = Map<Seq<char>, Seq<OutputPort>>;

    closed spec fn view(&self) -> Map<Seq<char>, Seq<OutputPort>> {
        self.table@
    }
}

impl OutputPorts {
    /// The table's internal map is well-formed.
    pub closed spec fn wf(&self) -> bool {
        self.table.wf()
    }

    /// Every handle has a well-formed assignment and a target inside a
    /// fabric of `n` connections.
    pub open spec fn handles_wf(&self, n: int) -> bool {
        forall|k: Seq<char>, j: int|
            self@.contains_key(k) && 0 <= j < self@[k].len() ==> {
                let h = #[trigger] self@[k][j];
                &&& h.assignment.wf()
                &&& 0 <= h.target < n
            }
    }

    pub fn new() -> (r: Self)
        ensures
            r@ == Map::<Seq<char>, Seq<OutputPort>>::empty(),
            r.wf(),
    {
        OutputPorts { table: AssocList::new() }
    }

    /// Appends a handle to the fan-out list of a local output name.
    pub fn attach(&mut self, name: String, port: OutputPort)
        requires
            old(self).wf(),
        ensures
            final(self).wf(),
            final(self)@ == old(self)@.insert(
                name@,
                handles_of(old(self)@, name@).push(port),
            ),
    {
        match self.table.remove(&name) {
            Some(mut handles) => {
                handles.push(port);
                self.table.insert(name, handles);
                proof {
                    assert(self.table@ =~= old(self).table@.insert(
                        name@,
                        handles_of(old(self)@, name@).push(port),
                    ));
                }
            },
            None => {
                let mut handles: Vec<OutputPort> = Vec::new();
                handles.push(port);
                self.table.insert(name, handles);
                proof {
                    assert(handles_of(old(self)@, name@).push(port) =~= seq![port]);
                }
            },
        }
    }

    /// The fan-out list attached under a name; `None` when nothing is.
    pub fn get_handles<'a>(&'a self, name: &String) -> (r: Option<&'a Vec<OutputPort>>)
        requires
            self.wf(),
        ensures
            match r {
                Some(v) => self@.contains_key(name@) && v@ == self@[name@],
                None => !self@.contains_key(name@),
            },
    {
        self.table.get(name)
    }
}

} // verus!
