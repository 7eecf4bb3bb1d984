use vstd::prelude::*;

use crate::assignment::Assignment;
use crate::assignment::projected;
use crate::assignment::projection_defined;
use crate::error::MrDamianError;
use crate::message::Packet;
use crate::message::PacketValue;
use crate::message::PropertyValue;
use crate::port::InputPort;
use crate::port::OutputPort;
use crate::port::OutputPorts;
use crate::port::handles_of;

verus! {

/// The per-component bundle of one input queue and one fan-out table.
#[derive(Debug)]
pub struct Connection {
    pub input: InputPort,
    pub outputs: OutputPorts,
}

impl Connection {
    /// Well-formed inside a fabric of `n` connections.
    pub open spec fn wf(&self, n: int) -> bool {
        &&& self.input.all_wf()
        &&& self.outputs.wf()
        &&& self.outputs.handles_wf(n)
    }

    pub fn new() -> (r: Self)
        ensures
            r.input@ == Seq::<PacketValue>::empty(),
            r.outputs@ == Map::<Seq<char>, Seq<OutputPort>>::empty(),
            forall|n: int| r.wf(n),
    {
        Connection { input: InputPort::new(), outputs: OutputPorts::new() }
    }

    /// Takes the oldest packet of the input queue; `None` exactly when the
    /// queue is empty.
    pub fn receive(&mut self) -> (r: Option<Packet>)
        requires
            old(self).input.all_wf(),
        ensures
            final(self).input.all_wf(),
            final(self).outputs == old(self).outputs,
            match r {
                Some(p) => old(self).input@.len() > 0 && p@ == old(self).input@[0] && p.wf()
                    && final(self).input@ == old(self).input@.drop_first(),
                None => old(self).input@.len() == 0 && final(self).input@ == old(self).input@,
            },
    {
        self.input.receive()
    }
}

/// The packet a handle's consumer receives for a message: the handle's
/// destination port name, and the message projected through the handle's
/// own assignment.
pub open spec fn projected_packet(h: OutputPort, m: Map<Seq<char>, PropertyValue>) -> PacketValue {
    PacketValue { port: h.dest@, message: projected(m, h.assignment@) }
}

/// The queue states that result from fanning one message out to a list of
/// handles, in order: each handle's target queue gains one packet carrying
/// the handle's destination port name and the message projected through the
/// handle's own assignment.
pub open spec fn deliver_queues(
    queues: Seq<Seq<PacketValue>>,
    handles: Seq<OutputPort>,
    m: Map<Seq<char>, PropertyValue>,
) -> Seq<Seq<PacketValue>>
    decreases handles.len(),
{
    if handles.len() == 0 {
        queues
    } else {
        let h = handles[0];
        let stepped = if 0 <= h.target < queues.len() {
            queues.update(
                h.target as int,
                queues[h.target as int].push(projected_packet(h, m)),
            )
        } else {
            queues
        };
        deliver_queues(stepped, handles.drop_first(), m)
    }
}

/// What one `send` call does: the wiring of every connection is left
/// alone, and either the packet's local output name is unattached and
/// `PortNotFound` comes back with no queue changed, or some attached
/// handle's assignment references an absent producer property and
/// `MessageKeyNotFound` comes back with no queue changed, or every
/// projection succeeds and each attached handle's target queue gains its
/// own projected packet, in attachment order.
pub open spec fn send_outcome(
    pre: Fabric,
    post: Fabric,
    src: int,
    packet: Packet,
    r: Result<(), MrDamianError>,
) -> bool {
    &&& post.conns@.len() == pre.conns@.len()
    &&& (forall|j: int| 0 <= j < pre.conns@.len() ==> post.conns@[j].outputs == pre.conns@[
        j].outputs)
    &&& match r {
        Ok(()) => {
            let handles = pre.conns@[src].outputs@[packet.port@];
            &&& pre.conns@[src].outputs@.contains_key(packet.port@)
            &&& forall|j: int| 0 <= j < handles.len() ==> projection_defined(
                packet.message@,
                (#[trigger] handles[j]).assignment@,
            )
            &&& post.queues() == deliver_queues(pre.queues(), handles, packet.message@)
        },
        Err(MrDamianError::PortNotFound(name)) => name@ == packet.port@ && !pre.conns@[
            src].outputs@.contains_key(packet.port@) && post.queues() == pre.queues(),
        Err(MrDamianError::MessageKeyNotFound) => {
            let handles = pre.conns@[src].outputs@[packet.port@];
            &&& pre.conns@[src].outputs@.contains_key(packet.port@)
            &&& exists|j: int| 0 <= j < handles.len() && !projection_defined(
                packet.message@,
                (#[trigger] handles[j]).assignment@,
            )
            &&& post.queues() == pre.queues()
        },
        _ => false,
    }
}

/// The wired runtime of one pipeline: every component's connection, indexed
/// by the component's position in the build order.
#[derive(Debug)]
pub struct Fabric {
    pub conns: Vec<Connection>,
}

impl Fabric {
    /// The input-queue states of all connections.
    pub open spec fn queues(&self) -> Seq<Seq<PacketValue>> {
        self.conns@.map_values(|c: Connection| c.input@)
    }

    pub open spec fn wf(&self) -> bool {
        forall|i: int| 0 <= i < self.conns@.len() ==> (#[trigger] self.conns@[i]).wf(
            self.conns@.len() as int,
        )
    }

    pub fn new() -> (r: Self)
        ensures
            r.conns@.len() == 0,
            r.wf(),
    {
        Fabric { conns: Vec::new() }
    }

    pub fn len(&self) -> (r: usize)
        ensures
            r == self.conns@.len(),
    {
        self.conns.len()
    }

    /// Adds a fresh, unwired connection and returns its index.
    pub fn add_connection(&mut self) -> (idx: usize)
        requires
            old(self).wf(),
        ensures
            final(self).wf(),
            idx == old(self).conns@.len(),
            final(self).conns@.len() == old(self).conns@.len() + 1,
            forall|j: int| 0 <= j < old(self).conns@.len() ==> final(self).conns@[j] == old(
                self,
            ).conns@[j],
            final(self).conns@[idx as int].input@ == Seq::<PacketValue>::empty(),
            final(self).conns@[idx as int].outputs@ == Map::<Seq<char>, Seq<OutputPort>>::empty(),
    {
        let idx = self.conns.len();
        self.conns.push(Connection::new());
        proof {
            assert forall|i: int| 0 <= i < self.conns@.len() implies (
            #[trigger] self.conns@[i]).wf(self.conns@.len() as int) by {
                if i < old(self).conns@.len() {
                    assert(old(self).conns@[i].wf(old(self).conns@.len() as int));
                }
            }
        }
        idx
    }

    /// Wires a producer's local output to a consumer's input port: the
    /// consumer side hands out a handle onto its queue, and the producer
    /// appends it to the fan-out list of its local output name.  Repeated
    /// calls on the same local output extend its fan-out list.
    pub fn connect(
        &mut self,
        src: usize,
        dst: usize,
        src_port: &String,
        dst_port: &String,
        assignment: Assignment,
    )
        requires
            old(self).wf(),
            src < old(self).conns@.len(),
            dst < old(self).conns@.len(),
            assignment.wf(),
        ensures
            final(self).wf(),
            final(self).conns@.len() == old(self).conns@.len(),
            forall|j: int| 0 <= j < old(self).conns@.len() && j != src ==> final(self).conns@[j]
                == old(self).conns@[j],
            final(self).conns@[src as int].input == old(self).conns@[src as int].input,
            final(self).conns@[src as int].outputs@ == old(self).conns@[src as int].outputs@
                .insert(
                src_port@,
                handles_of(old(self).conns@[src as int].outputs@, src_port@).push(
                    (OutputPort { dest: *dst_port, target: dst, assignment: assignment }),
                ),
            ),
    {
        let handle = OutputPort { dest: dst_port.clone(), target: dst, assignment };
        let conn = &mut self.conns[src];
        conn.outputs.attach(src_port.clone(), handle);
        proof {
            assert forall|i: int| 0 <= i < self.conns@.len() implies (
            #[trigger] self.conns@[i]).wf(self.conns@.len() as int) by {
                let n = self.conns@.len() as int;
                assert(old(self).conns@[i].wf(n));
                if i == src {
                    let before = old(self).conns@[src as int].outputs@;
                    let after = self.conns@[src as int].outputs@;
                    assert forall|k: Seq<char>, j: int|
                        after.contains_key(k) && 0 <= j < after[k].len() implies {
                        let h = #[trigger] after[k][j];
                        &&& h.assignment.wf()
                        &&& 0 <= h.target < n
                    } by {
                        if k == src_port@ && j == after[k].len() - 1 {
                        } else {
                            assert(before.contains_key(k) && before[k][j] == after[k][j]);
                        }
                    }
                }
            }
        }
    }

    /// Fans a packet out from the connection at `src`: looks the packet's
    /// local output name up, projects the message through every attached
    /// handle's assignment, and appends the projected packets to the target
    /// queues in attachment order.  Nothing is enqueued anywhere unless
    /// every projection succeeds.
    pub fn send(&mut self, src: usize, packet: Packet) -> (r: Result<(), MrDamianError>)
        requires
            old(self).wf(),
            src < old(self).conns@.len(),
            packet.wf(),
        ensures
            final(self).wf(),
            send_outcome(*old(self), *final(self), src as int, packet, r),
    {
        let ghost q0 = self.queues();
        let conn = &self.conns[src];
        let handles = match conn.outputs.get_handles(&packet.port) {
            None => {
                return Err(MrDamianError::PortNotFound(packet.port));
            },
            Some(handles) => handles,
        };
        let ghost hs = handles@;

        let mut deliveries: Vec<(usize, Packet)> = Vec::new();
        let n = handles.len();
        let mut k: usize = 0;
        while k < n
            invariant
                n == hs.len(),
                k <= n,
                hs == handles@,
                packet.wf(),
                self.wf(),
                src < self.conns@.len(),
                self.conns@[src as int].outputs@.contains_key(packet.port@),
                hs == self.conns@[src as int].outputs@[packet.port@],
                deliveries@.len() == k,
                forall|j: int| 0 <= j < k ==> projection_defined(
                    packet.message@,
                    (#[trigger] hs[j]).assignment@,
                ),
                forall|j: int| 0 <= j < k ==> {
                    let d = #[trigger] deliveries@[j];
                    &&& d.0 == hs[j].target
                    &&& d.0 < self.conns@.len()
                    &&& d.1.wf()
                    &&& d.1@ == (PacketValue {
                        port: hs[j].dest@,
                        message: projected(packet.message@, hs[j].assignment@),
                    })
                },
            decreases n - k,
        {
            let h = &handles[k];
            proof {
                assert(self.conns@[src as int].wf(self.conns@.len() as int));
                assert(self.conns@[src as int].outputs@[packet.port@][k as int] == hs[k as int]);
                assert(0 <= hs[k as int].target < self.conns@.len());
            }
            match crate::assignment::project(&packet.message, &h.assignment) {
                Ok(m) => {
                    deliveries.push((h.target, Packet { port: h.dest.clone(), message: m }));
                },
                Err(e) => {
                    return Err(e);
                },
            }
            k += 1;
        }
        let ghost msg = packet.message@;
        proof {
            assert(hs.skip(0) =~= hs);
        }

        let dn = deliveries.len();
        let mut i: usize = 0;
        while i < dn
            invariant
                dn == deliveries@.len(),
                dn == hs.len(),
                i <= dn,
                self.conns@.len() == old(self).conns@.len(),
                src < self.conns@.len(),
                self.wf(),
                forall|j: int| 0 <= j < self.conns@.len() ==> self.conns@[j].outputs == old(
                    self,
                ).conns@[j].outputs,
                forall|j: int| 0 <= j < dn ==> {
                    let d = #[trigger] deliveries@[j];
                    &&& d.0 == hs[j].target
                    &&& d.0 < self.conns@.len()
                    &&& d.1.wf()
                    &&& d.1@ == (PacketValue {
                        port: hs[j].dest@,
                        message: projected(msg, hs[j].assignment@),
                    })
                },
                deliver_queues(self.queues(), hs.skip(i as int), msg) == deliver_queues(
                    q0,
                    hs,
                    msg,
                ),
            decreases dn - i,
        {
            let ghost queues_before = self.queues();
            let ghost conns_before = self.conns@;
            let t = deliveries[i].0;
            let p = deliveries[i].1.clone();
            proof {
                assert(self.conns@[t as int].wf(self.conns@.len() as int));
            }
            self.conns[t].input.push(p);
            proof {
                assert forall|j: int| 0 <= j < self.conns@.len() implies (
                #[trigger] self.conns@[j]).wf(self.conns@.len() as int) by {
                    assert(conns_before[j].wf(conns_before.len() as int));
                    if j != t {
                        assert(self.conns@[j] == conns_before[j]);
                    }
                }
                let stepped = queues_before.update(
                    hs[i as int].target as int,
                    queues_before[hs[i as int].target as int].push(
                        PacketValue {
                            port: hs[i as int].dest@,
                            message: projected(msg, hs[i as int].assignment@),
                        },
                    ),
                );
                assert(self.queues() =~= stepped);
                assert(hs.skip(i as int)[0] == hs[i as int]);
                assert(hs.skip(i as int).drop_first() =~= hs.skip(i as int + 1));
                assert(deliver_queues(queues_before, hs.skip(i as int), msg) == deliver_queues(
                    stepped,
                    hs.skip(i as int + 1),
                    msg,
                ));
            }
            i += 1;
        }
        proof {
            assert(hs.skip(dn as int) =~= Seq::<OutputPort>::empty());
        }
        Ok(())
    }
}

/// First in, first out per edge: when one local output feeds one handle,
/// two successive sends append their projected packets to the consumer's
/// queue in send order, and no other queue changes.  The consumer's
/// `receive` takes packets from the front, so it sees them in that order.
pub proof fn lemma_fifo_per_edge(
    queues: Seq<Seq<PacketValue>>,
    h: OutputPort,
    m1: Map<Seq<char>, PropertyValue>,
    m2: Map<Seq<char>, PropertyValue>,
)
    requires
        0 <= h.target < queues.len(),
    ensures
        ({
            let once = deliver_queues(queues, seq![h], m1);
            let twice = deliver_queues(once, seq![h], m2);
            &&& twice.len() == queues.len()
            &&& twice[h.target as int] == queues[h.target as int].push(
                projected_packet(h, m1),
            ).push(projected_packet(h, m2))
            &&& forall|j: int| 0 <= j < queues.len() && j != h.target ==> twice[j] == queues[j]
        }),
{
    reveal_with_fuel(deliver_queues, 3);
    let t = h.target as int;
    let q1 = queues.update(t, queues[t].push(projected_packet(h, m1)));
    assert(seq![h].drop_first() =~= Seq::<OutputPort>::empty());
    assert(seq![h][0] == h);
    assert(deliver_queues(queues, seq![h], m1) == q1);
    let q2 = q1.update(t, q1[t].push(projected_packet(h, m2)));
    assert(deliver_queues(q1, seq![h], m2) == q2);
}

/// Fan-out completeness: when one local output feeds two handles with
/// distinct targets, one successful delivery appends exactly one packet to
/// each target's queue, each projected by that handle's own assignment, and
/// leaves every other queue alone.
pub proof fn lemma_fanout_completeness(
    queues: Seq<Seq<PacketValue>>,
    h1: OutputPort,
    h2: OutputPort,
    m: Map<Seq<char>, PropertyValue>,
)
    requires
        0 <= h1.target < queues.len(),
        0 <= h2.target < queues.len(),
        h1.target != h2.target,
    ensures
        ({
            let qs = deliver_queues(queues, seq![h1, h2], m);
            &&& qs.len() == queues.len()
            &&& qs[h1.target as int] == queues[h1.target as int].push(projected_packet(h1, m))
            &&& qs[h2.target as int] == queues[h2.target as int].push(projected_packet(h2, m))
            &&& forall|j: int| 0 <= j < queues.len() && j != h1.target && j != h2.target ==> qs[j]
                == queues[j]
        }),
{
    reveal_with_fuel(deliver_queues, 3);
    let t1 = h1.target as int;
    let t2 = h2.target as int;
    let s = seq![h1, h2];
    assert(s[0] == h1);
    assert(s.drop_first() =~= seq![h2]);
    let q1 = queues.update(t1, queues[t1].push(projected_packet(h1, m)));
    assert(deliver_queues(queues, s, m) == deliver_queues(q1, seq![h2], m));
    assert(seq![h2][0] == h2);
    assert(seq![h2].drop_first() =~= Seq::<OutputPort>::empty());
    let q2 = q1.update(t2, q1[t2].push(projected_packet(h2, m)));
    assert(deliver_queues(q1, seq![h2], m) == q2);
}

} // verus!
