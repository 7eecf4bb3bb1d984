use vstd::prelude::*;

use crate::connection::Fabric;
use crate::factory::Factory;
use crate::factory::FactoryEntryValue;
use crate::factory::find_entry;
use crate::message::PacketValue;
use crate::model::ComponentValue;
use crate::model::ConnectionValue;
use crate::model::Kind;
use crate::model::Pipeline;
use crate::model::PipelineValue;
use crate::port::OutputPort;
use crate::port::handles_of;

verus! {

/// One live component of the running pipeline: its description id and its
/// kind.  The component's connection sits at the same index in the fabric,
/// and the embedding program runs one task per instance.
#[derive(Debug)]
pub struct Instance {
    pub id: String,
    pub kind: Kind,
}

/// The owner of one built pipeline: the instantiated components and the
/// wired fabric their tasks communicate through.  The embedding program
/// spawns one task per instance and aborts them all when it drops the
/// pipeline this value describes.
#[derive(Debug)]
pub struct Handles {
    pub instances: Vec<Instance>,
    pub fabric: Fabric,
}

/// The description ids of the instances, in build order.
pub open spec fn instance_ids(s: Seq<Instance>) -> Seq<Seq<char>> {
    s.map_values(|t: Instance| t.id@)
}

/// The ids of a list of component entries.
pub open spec fn ids_of(s: Seq<ComponentValue>) -> Seq<Seq<char>> {
    s.map_values(|c: ComponentValue| c.id)
}

/// No id occurs twice.
pub open spec fn distinct_ids(ids: Seq<Seq<char>>) -> bool {
    forall|i: int, j: int| 0 <= i < j < ids.len() ==> ids[i] != ids[j]
}

/// The component entries the builder instantiates, in order: those whose
/// kind the registry knows and whose id no earlier instantiated entry took.
pub open spec fn planned(reg: Seq<FactoryEntryValue>, comps: Seq<ComponentValue>) -> Seq<
    ComponentValue,
>
    decreases comps.len(),
{
    if comps.len() == 0 {
        Seq::empty()
    } else {
        let prefix = planned(reg, comps.drop_last());
        let c = comps.last();
        if find_entry(reg, c.kind) is Some && !ids_of(prefix).contains(c.id) {
            prefix.push(c)
        } else {
            prefix
        }
    }
}

/// Whether the builder realizes an edge: both endpoints name instantiated
/// components, and the edge is no self-loop.
pub open spec fn edge_realized(ids: Seq<Seq<char>>, e: ConnectionValue) -> bool {
    &&& ids.contains(e.source_parent)
    &&& ids.contains(e.target_parent)
    &&& e.source_parent != e.target_parent
}

/// The realized edges leaving one local output of one instance, in
/// description order.
pub open spec fn edges_from(
    conns: Seq<ConnectionValue>,
    ids: Seq<Seq<char>>,
    sid: Seq<char>,
    pn: Seq<char>,
) -> Seq<ConnectionValue>
    decreases conns.len(),
{
    if conns.len() == 0 {
        Seq::empty()
    } else {
        let prefix = edges_from(conns.drop_last(), ids, sid, pn);
        let e = conns.last();
        if edge_realized(ids, e) && e.source_parent == sid && e.source_name == pn {
            prefix.push(e)
        } else {
            prefix
        }
    }
}

/// Whether a fabric handle implements a description edge: it carries the
/// edge's destination port name and assignment, and it targets the
/// instance the edge's target parent names.
pub open spec fn handle_matches(h: OutputPort, e: ConnectionValue, ids: Seq<Seq<char>>) -> bool {
    &&& h.dest@ == e.target_name
    &&& 0 <= h.target < ids.len()
    &&& ids[h.target as int] == e.target_parent
    &&& h.assignment@ == e.assignment
}

/// Whether a built pipeline implements a description under a registry: the
/// instances are exactly the planned components, every input queue starts
/// empty, and each local output of each instance carries one handle per
/// realized edge leaving it, in description order.
pub open spec fn built_matches(
    reg: Seq<FactoryEntryValue>,
    p: PipelineValue,
    h: Handles,
) -> bool {
    let plan = planned(reg, p.components);
    let ids = instance_ids(h.instances@);
    &&& h.instances@.len() == plan.len()
    &&& (forall|k: int| 0 <= k < plan.len() ==> (#[trigger] h.instances@[k]).id@ == plan[k].id
        && h.instances@[k].kind.0@ == plan[k].kind)
    &&& h.fabric.conns@.len() == h.instances@.len()
    &&& (forall|k: int| 0 <= k < h.fabric.conns@.len() ==> (
    #[trigger] h.fabric.conns@[k]).input@ == Seq::<PacketValue>::empty())
    &&& (forall|si: int, pn: Seq<char>|
        0 <= si < h.instances@.len() ==> {
            let hs = #[trigger] handles_of(h.fabric.conns@[si].outputs@, pn);
            let es = edges_from(p.connections, ids, h.instances@[si].id@, pn);
            &&& hs.len() == es.len()
            &&& (forall|k: int| 0 <= k < hs.len() ==> handle_matches(#[trigger] hs[k], es[k], ids))
            &&& (h.fabric.conns@[si].outputs@.contains_key(pn) <==> es.len() > 0)
        })
}

impl Handles {
    /// Well-formed: the fabric is, there is one connection per instance,
    /// and instance ids are unique.
    pub open spec fn wf(&self) -> bool {
        &&& self.fabric.wf()
        &&& self.fabric.conns@.len() == self.instances@.len()
        &&& distinct_ids(instance_ids(self.instances@))
    }

    /// A built pipeline with nothing in it.
    pub fn empty() -> (r: Self)
        ensures
            r.wf(),
            r.instances@.len() == 0,
            r.fabric.conns@.len() == 0,
    {
        Handles { instances: Vec::new(), fabric: Fabric::new() }
    }
}

/// Looks an instance up by description id.
fn find_instance(instances: &Vec<Instance>, id: &String) -> (r: Option<usize>)
    ensures
        match r {
            Some(k) => k < instances@.len() && instances@[k as int].id@ == id@,
            None => forall|j: int| 0 <= j < instances@.len() ==> (
            #[trigger] instances@[j]).id@ != id@,
        },
{
    let n = instances.len();
    let mut i: usize = 0;
    while i < n
        invariant
            n == instances@.len(),
            i <= n,
            forall|j: int| 0 <= j < i ==> (#[trigger] instances@[j]).id@ != id@,
        decreases n - i,
    {
        if instances[i].id.eq(id) {
            return Some(i);
        }
        i += 1;
    }
    None
}

proof fn lemma_edges_from_snoc(
    conns: Seq<ConnectionValue>,
    e: ConnectionValue,
    ids: Seq<Seq<char>>,
    sid: Seq<char>,
    pn: Seq<char>,
)
    ensures
        edges_from(conns.push(e), ids, sid, pn) == (if edge_realized(ids, e) && e.source_parent
            == sid && e.source_name == pn {
            edges_from(conns, ids, sid, pn).push(e)
        } else {
            edges_from(conns, ids, sid, pn)
        }),
{
    assert(conns.push(e).drop_last() =~= conns);
}

proof fn lemma_planned_snoc(
    reg: Seq<FactoryEntryValue>,
    comps: Seq<ComponentValue>,
    c: ComponentValue,
)
    ensures
        planned(reg, comps.push(c)) == (if find_entry(reg, c.kind) is Some && !ids_of(
            planned(reg, comps),
        ).contains(c.id) {
            planned(reg, comps).push(c)
        } else {
            planned(reg, comps)
        }),
{
    assert(comps.push(c).drop_last() =~= comps);
}

impl Factory {
    /// Builds a description into a running pipeline: instantiates every
    /// component whose kind is registered and whose id is fresh, then wires
    /// every edge whose two endpoints both exist and differ; entries that
    /// fail either test are skipped and the rest of the pipeline is built.
    pub fn create_pipeline(&self, p: &Pipeline) -> (h: Handles)
        requires
            p.wf(),
        ensures
            h.wf(),
            built_matches(self@, p@, h),
    {
        let mut instances: Vec<Instance> = Vec::new();
        let mut fabric = Fabric::new();

        let n = p.components.len();
        let mut i: usize = 0;
        proof {
            assert(p.components@.map_values(|c: crate::model::Component| c@).take(0)
                =~= Seq::<ComponentValue>::empty());
        }
        while i < n
            invariant
                n == p.components@.len(),
                i <= n,
                fabric.wf(),
                fabric.conns@.len() == instances@.len(),
                forall|k: int| 0 <= k < fabric.conns@.len() ==> (
                #[trigger] fabric.conns@[k]).input@ == Seq::<PacketValue>::empty(),
                forall|k: int| 0 <= k < fabric.conns@.len() ==> (
                #[trigger] fabric.conns@[k]).outputs@ == Map::<
                    Seq<char>,
                    Seq<OutputPort>,
                >::empty(),
                ({
                    let plan = planned(self@, p@.components.take(i as int));
                    &&& instances@.len() == plan.len()
                    &&& (forall|k: int| 0 <= k < plan.len() ==> (#[trigger] instances@[k]).id@
                        == plan[k].id && instances@[k].kind.0@ == plan[k].kind)
                }),
            decreases n - i,
        {
            let c = &p.components[i];
            let ghost plan0 = planned(self@, p@.components.take(i as int));
            proof {
                assert(p@.components.take(i as int + 1) =~= p@.components.take(i as int).push(
                    p@.components[i as int],
                ));
                lemma_planned_snoc(self@, p@.components.take(i as int), p@.components[i as int]);
                assert(p@.components[i as int] == c@);
            }
            match self.create_component(&c.kind, &c.id) {
                Ok(_) => {
                    match find_instance(&instances, &c.id) {
                        Some(_) => {
                            proof {
                                let k = choose|k: int|
                                    0 <= k < instances@.len() && instances@[k].id@ == c.id@;
                                assert(ids_of(plan0)[k] == c@.id);
                                assert(ids_of(plan0).contains(c@.id));
                            }
                        },
                        None => {
                            proof {
                                if ids_of(plan0).contains(c@.id) {
                                    let k = choose|k: int|
                                        0 <= k < ids_of(plan0).len() && ids_of(plan0)[k]
                                            == c@.id;
                                    assert(instances@[k].id@ == c@.id);
                                }
                            }
                            fabric.add_connection();
                            instances.push(Instance { id: c.id.clone(), kind: c.kind.clone() });
                        },
                    }
                },
                Err(_) => {},
            }
            i += 1;
        }
        proof {
            assert(p@.components.take(n as int) =~= p@.components);
        }

        let ghost ids = instance_ids(instances@);
        proof {
            assert(distinct_ids(ids)) by {
                let plan = planned(self@, p@.components);
                assert forall|a: int, b: int| 0 <= a < b < ids.len() implies ids[a] != ids[b] by {
                    lemma_planned_distinct(self@, p@.components);
                    assert(ids_of(plan)[a] != ids_of(plan)[b]);
                    assert(ids[a] == instances@[a].id@ && instances@[a].id@ == plan[a].id);
                    assert(ids[b] == instances@[b].id@ && instances@[b].id@ == plan[b].id);
                }
            }
        }

        let m = p.connections.len();
        let mut j: usize = 0;
        proof {
            assert(p.connections@.map_values(|e: crate::model::Connection| e@).take(0)
                =~= Seq::<ConnectionValue>::empty());
        }
        while j < m
            invariant
                m == p.connections@.len(),
                j <= m,
                p.wf(),
                fabric.wf(),
                ids == instance_ids(instances@),
                distinct_ids(ids),
                fabric.conns@.len() == instances@.len(),
                forall|k: int| 0 <= k < fabric.conns@.len() ==> (
                #[trigger] fabric.conns@[k]).input@ == Seq::<PacketValue>::empty(),
                forall|si: int, pn: Seq<char>|
                    0 <= si < instances@.len() ==> {
                        let hs = #[trigger] handles_of(fabric.conns@[si].outputs@, pn);
                        let es = edges_from(
                            p@.connections.take(j as int),
                            ids,
                            instances@[si].id@,
                            pn,
                        );
                        &&& hs.len() == es.len()
                        &&& (forall|k: int| 0 <= k < hs.len() ==> handle_matches(
                            #[trigger] hs[k],
                            es[k],
                            ids,
                        ))
                        &&& (fabric.conns@[si].outputs@.contains_key(pn) <==> es.len() > 0)
                    },
            decreases m - j,
        {
            let e = &p.connections[j];
            let ghost conns0 = p@.connections.take(j as int);
            proof {
                assert(p@.connections.take(j as int + 1) =~= conns0.push(
                    p@.connections[j as int],
                ));
                assert(p@.connections[j as int] == e@);
            }
            let si_found = find_instance(&instances, &e.source.parent);
            let ti_found = find_instance(&instances, &e.target.parent);
            let mut wired = false;
            if let (Some(si), Some(ti)) = (si_found, ti_found) {
                if si != ti {
                    proof {
                        assert(ids[si as int] == e@.source_parent);
                        assert(ids[ti as int] == e@.target_parent);
                        assert(ids.contains(e@.source_parent));
                        assert(ids.contains(e@.target_parent));
                        assert(edge_realized(ids, e@));
                        assert(p.connections@[j as int].wf());
                    }
                    let ghost fabric0 = fabric;
                    fabric.connect(si, ti, &e.source.name, &e.target.name, e.assignment.clone());
                    wired = true;
                    proof {
                        lemma_wiring_step(
                            fabric0,
                            fabric,
                            instances@,
                            p@.connections,
                            j as int,
                            si as int,
                            ti as int,
                        );
                    }
                }
            }
            if !wired {
                proof {
                    assert(!edge_realized(ids, e@)) by {
                        if edge_realized(ids, e@) {
                            match si_found {
                                Some(si) => {
                                    match ti_found {
                                        Some(ti) => {
                                            assert(ids[si as int] == e@.source_parent);
                                            assert(ids[ti as int] == e@.target_parent);
                                            assert(si == ti);
                                        },
                                        None => {
                                            let k = choose|k: int|
                                                0 <= k < ids.len() && ids[k] == e@.target_parent;
                                            assert(instances@[k].id@ == e@.target_parent);
                                        },
                                    }
                                },
                                None => {
                                    let k = choose|k: int|
                                        0 <= k < ids.len() && ids[k] == e@.source_parent;
                                    assert(instances@[k].id@ == e@.source_parent);
                                },
                            }
                        }
                    }
                    assert forall|si2: int, pn: Seq<char>| 0 <= si2 < instances@.len() implies
                        edges_from(
                        p@.connections.take(j as int + 1),
                        ids,
                        instances@[si2].id@,
                        pn,
                    ) == edges_from(conns0, ids, instances@[si2].id@, pn) by {
                        lemma_edges_from_snoc(conns0, e@, ids, instances@[si2].id@, pn);
                    }
                }
            }
            j += 1;
        }
        proof {
            assert(p@.connections.take(m as int) =~= p@.connections);
        }
        Handles { instances, fabric }
    }
}

/// Unknown-kind tolerance: a component entry whose kind the registry does
/// not know plays no part in the build; the builder instantiates exactly
/// the components it would instantiate were the entry absent.
pub proof fn lemma_unknown_kind_tolerance(
    reg: Seq<FactoryEntryValue>,
    comps: Seq<ComponentValue>,
    i: int,
)
    requires
        0 <= i < comps.len(),
        find_entry(reg, comps[i].kind) is None,
    ensures
        planned(reg, comps) == planned(reg, comps.remove(i)),
    decreases comps.len(),
{
    let last = comps.len() - 1;
    if i == last {
        assert(comps.remove(i) =~= comps.drop_last());
    } else {
        assert(comps.remove(i).drop_last() =~= comps.drop_last().remove(i));
        lemma_unknown_kind_tolerance(reg, comps.drop_last(), i);
        assert(comps.remove(i).last() == comps.last());
    }
}

/// The planned components carry distinct ids.
proof fn lemma_planned_distinct(reg: Seq<FactoryEntryValue>, comps: Seq<ComponentValue>)
    ensures
        distinct_ids(ids_of(planned(reg, comps))),
    decreases comps.len(),
{
    if comps.len() > 0 {
        lemma_planned_distinct(reg, comps.drop_last());
        let prefix = planned(reg, comps.drop_last());
        let c = comps.last();
        if find_entry(reg, c.kind) is Some && !ids_of(prefix).contains(c.id) {
            let ids = ids_of(prefix.push(c));
            assert forall|a: int, b: int| 0 <= a < b < ids.len() implies ids[a] != ids[b] by {
                if b == ids.len() - 1 {
                    if ids_of(prefix)[a] == c.id {
                        assert(ids_of(prefix).contains(c.id));
                    }
                    assert(ids[a] == ids_of(prefix)[a]);
                    assert(ids[b] == c.id);
                } else {
                    assert(ids[a] == ids_of(prefix)[a] && ids[b] == ids_of(prefix)[b]);
                    assert(distinct_ids(ids_of(prefix)));
                }
            }
        }
    }
}

/// One wiring step: after one realized edge is connected, every local
/// output of every instance again corresponds to its realized edges.
proof fn lemma_wiring_step(
    before: Fabric,
    after: Fabric,
    instances: Seq<Instance>,
    conns: Seq<ConnectionValue>,
    j: int,
    si: int,
    ti: int,
)
    requires
        0 <= j < conns.len(),
        0 <= si < instances.len(),
        0 <= ti < instances.len(),
        si != ti,
        before.conns@.len() == instances.len(),
        after.conns@.len() == instances.len(),
        distinct_ids(instance_ids(instances)),
        instance_ids(instances)[si] == conns[j].source_parent,
        instance_ids(instances)[ti] == conns[j].target_parent,
        forall|k: int| 0 <= k < instances.len() && k != si ==> after.conns@[k] == before.conns@[k],
        after.conns@[si].outputs@ == before.conns@[si].outputs@.insert(
            conns[j].source_name,
            handles_of(before.conns@[si].outputs@, conns[j].source_name).push(
                after.conns@[si].outputs@[conns[j].source_name].last(),
            ),
        ),
        handle_matches(
            after.conns@[si].outputs@[conns[j].source_name].last(),
            conns[j],
            instance_ids(instances),
        ),
        forall|s2: int, pn: Seq<char>|
            0 <= s2 < instances.len() ==> {
                let hs = #[trigger] handles_of(before.conns@[s2].outputs@, pn);
                let es = edges_from(conns.take(j), instance_ids(instances), instances[s2].id@, pn);
                &&& hs.len() == es.len()
                &&& (forall|k: int| 0 <= k < hs.len() ==> handle_matches(
                    #[trigger] hs[k],
                    es[k],
                    instance_ids(instances),
                ))
                &&& (before.conns@[s2].outputs@.contains_key(pn) <==> es.len() > 0)
            },
    ensures
        forall|s2: int, pn: Seq<char>|
            0 <= s2 < instances.len() ==> {
                let hs = #[trigger] handles_of(after.conns@[s2].outputs@, pn);
                let es = edges_from(
                    conns.take(j + 1),
                    instance_ids(instances),
                    instances[s2].id@,
                    pn,
                );
                &&& hs.len() == es.len()
                &&& (forall|k: int| 0 <= k < hs.len() ==> handle_matches(
                    #[trigger] hs[k],
                    es[k],
                    instance_ids(instances),
                ))
                &&& (after.conns@[s2].outputs@.contains_key(pn) <==> es.len() > 0)
            },
{
    let ids = instance_ids(instances);
    let e = conns[j];
    assert(ids.contains(e.source_parent));
    assert(ids.contains(e.target_parent));
    assert(edge_realized(ids, e));
    assert(conns.take(j + 1) =~= conns.take(j).push(e));
    assert forall|s2: int, pn: Seq<char>| 0 <= s2 < instances.len() implies {
        let hs = #[trigger] handles_of(after.conns@[s2].outputs@, pn);
        let es = edges_from(conns.take(j + 1), ids, instances[s2].id@, pn);
        &&& hs.len() == es.len()
        &&& (forall|k: int| 0 <= k < hs.len() ==> handle_matches(#[trigger] hs[k], es[k], ids))
        &&& (after.conns@[s2].outputs@.contains_key(pn) <==> es.len() > 0)
    } by {
        lemma_edges_from_snoc(conns.take(j), e, ids, instances[s2].id@, pn);
        let hs0 = handles_of(before.conns@[s2].outputs@, pn);
        let es0 = edges_from(conns.take(j), ids, instances[s2].id@, pn);
        if s2 == si && pn == e.source_name {
            let h = after.conns@[si].outputs@[e.source_name].last();
            assert(instances[s2].id@ == e.source_parent);
            assert(handles_of(after.conns@[s2].outputs@, pn) == hs0.push(h));
            assert(edges_from(conns.take(j + 1), ids, instances[s2].id@, pn) == es0.push(e));
            assert forall|k: int| 0 <= k < hs0.push(h).len() implies handle_matches(
                #[trigger] hs0.push(h)[k],
                es0.push(e)[k],
                ids,
            ) by {
                if k < hs0.len() {
                    assert(hs0.push(h)[k] == hs0[k]);
                    assert(es0.push(e)[k] == es0[k]);
                    assert(handle_matches(hs0[k], es0[k], ids));
                }
            }
        } else {
            assert(handles_of(after.conns@[s2].outputs@, pn) == hs0);
            if s2 != si {
                assert(after.conns@[s2] == before.conns@[s2]);
                if instances[s2].id@ == e.source_parent {
                    assert(ids[s2] == e.source_parent && ids[si] == e.source_parent);
                    assert(false);
                }
                assert(edges_from(conns.take(j + 1), ids, instances[s2].id@, pn) == es0);
            } else {
                assert(pn != e.source_name);
                assert(edges_from(conns.take(j + 1), ids, instances[s2].id@, pn) == es0);
                assert(after.conns@[s2].outputs@.contains_key(pn) == before.conns@[
                    s2].outputs@.contains_key(pn));
            }
        }
    }
}

} // verus!
