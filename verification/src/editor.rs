use vstd::prelude::*;

use crate::assignment::Assignment;
use crate::model::Connection;
use crate::model::InputPortID;
use crate::model::OutputPortID;

verus! {

/// The assignment data attached to an editor edge.
#[derive(Debug)]
pub struct EdgeData {
    pub assign: Assignment,
}

/// An edge of the editor graph: a wire between two node handles, carrying
/// its assignment.
#[derive(Debug)]
pub struct Edge {
    pub id: String,
    pub label: Option<String>,
    pub source: String,
    pub target: String,
    pub source_handle: String,
    pub target_handle: String,
    pub data: EdgeData,
}

/// The spec value of an editor edge.
#[verifier::ext_equal]
pub ghost struct EdgeValue {
    pub id: Seq<char>,
    pub label: Option<Seq<char>>,
    pub source: Seq<char>,
    pub target: Seq<char>,
    pub source_handle: Seq<char>,
    pub target_handle: Seq<char>,
    pub assign: Map<Seq<char>, Seq<char>>,
}

impl View for Edge {
    type V = EdgeValue;

    open spec fn view(&self) -> EdgeValue {
        EdgeValue {
            id: self.id@,
            label: match self.label {
                Some(ref l) => Some(l@),
                None => None,
            },
            source: self.source@,
            target: self.target@,
            source_handle: self.source_handle@,
            target_handle: self.target_handle@,
            assign: self.data.assign@,
        }
    }
}

impl Edge {
    /// Well-formed: the assignment map has no duplicate keys.
    pub open spec fn wf(&self) -> bool {
        self.data.assign.wf()
    }

    /// The description edge this editor edge denotes: the source handle
    /// names the producer's output port, the target handle the consumer's
    /// input port.
    pub fn into_connection(self) -> (r: Connection)
        ensures
            r@.id == self@.id,
            r@.source_parent == self@.source,
            r@.source_name == self@.source_handle,
            r@.target_parent == self@.target,
            r@.target_name == self@.target_handle,
            r@.assignment == self@.assign,
            self.wf() ==> r.wf(),
    {
        Connection {
            id: self.id,
            source: OutputPortID { parent: self.source, name: self.source_handle },
            target: InputPortID { parent: self.target, name: self.target_handle },
            assignment: self.data.assign,
        }
    }
}

impl Clone for Edge {
    fn clone(&self) -> (r: Self)
        ensures
            r@ == self@,
            self.wf() ==> r.wf(),
    {
        let label = match &self.label {
            Some(l) => Some(l.clone()),
            None => None,
        };
        let r = Edge {
            id: self.id.clone(),
            label,
            source: self.source.clone(),
            target: self.target.clone(),
            source_handle: self.source_handle.clone(),
            target_handle: self.target_handle.clone(),
            data: EdgeData { assign: self.data.assign.clone() },
        };
        proof {
            assert(r@ =~= self@);
        }
        r
    }
}

/// The spec values of a list of edges.
pub open spec fn edge_views(s: Seq<Edge>) -> Seq<EdgeValue> {
    s.map_values(|e: Edge| e@)
}

/// Whether an edge wires the given endpoints.
pub open spec fn edge_joins(
    e: EdgeValue,
    source: Seq<char>,
    target: Seq<char>,
    source_handle: Seq<char>,
    target_handle: Seq<char>,
) -> bool {
    &&& e.source == source
    &&& e.target == target
    &&& e.source_handle == source_handle
    &&& e.target_handle == target_handle
}

/// The edges that survive removing every wire between the given endpoints,
/// in order.
pub open spec fn kept_edges(
    s: Seq<EdgeValue>,
    source: Seq<char>,
    target: Seq<char>,
    source_handle: Seq<char>,
    target_handle: Seq<char>,
) -> Seq<EdgeValue>
    decreases s.len(),
{
    if s.len() == 0 {
        Seq::empty()
    } else {
        let rest = kept_edges(s.drop_first(), source, target, source_handle, target_handle);
        if edge_joins(s[0], source, target, source_handle, target_handle) {
            rest
        } else {
            seq![s[0]] + rest
        }
    }
}

/// The edge store of the graph editor.  Node placement is presentation
/// data and stays with the embedding program; the edges, whose wiring and
/// assignments the engine is rebuilt from, live here.
#[derive(Debug)]
pub struct EditorRepository {
    edges: Vec<Edge>,
}

impl EditorRepository {
    /// The stored edges, in insertion order.
    pub closed spec fn edges_view(&self) -> Seq<EdgeValue> {
        edge_views(self.edges@)
    }

    pub closed spec fn wf(&self) -> bool {
        forall|i: int| 0 <= i < self.edges@.len() ==> (#[trigger] self.edges@[i]).wf()
    }

    pub fn new() -> (r: Self)
        ensures
            r.wf(),
            r.edges_view().len() == 0,
    {
        proof {
            assert(edge_views(Seq::<Edge>::empty()) =~= Seq::<EdgeValue>::empty());
        }
        EditorRepository { edges: Vec::new() }
    }

    /// A snapshot of the stored edges.
    pub fn get(&self) -> (r: Vec<Edge>)
        requires
            self.wf(),
        ensures
            edge_views(r@) == self.edges_view(),
    {
        let mut r: Vec<Edge> = Vec::new();
        let n = self.edges.len();
        let mut i: usize = 0;
        while i < n
            invariant
                n == self.edges@.len(),
                i <= n,
                r@.len() == i,
                self.wf(),
                edge_views(r@) == edge_views(self.edges@).take(i as int),
            decreases n - i,
        {
            r.push(self.edges[i].clone());
            proof {
                assert(edge_views(r@) =~= edge_views(self.edges@).take(i as int + 1));
            }
            i += 1;
        }
        proof {
            assert(edge_views(self.edges@).take(n as int) =~= edge_views(self.edges@));
        }
        r
    }

    /// Appends a wire between the given endpoints, under a freshly
    /// generated id, with no label and an empty assignment.
    pub fn add_edge(
        &mut self,
        source: String,
        target: String,
        source_handle: String,
        target_handle: String,
    )
        requires
            old(self).wf(),
        ensures
            final(self).wf(),
            final(self).edges_view().len() == old(self).edges_view().len() + 1,
            final(self).edges_view().drop_last() == old(self).edges_view(),
            ({
                let e = final(self).edges_view().last();
                &&& e.id.len() == 26
                &&& e.label is None
                &&& e.source == source@
                &&& e.target == target@
                &&& e.source_handle == source_handle@
                &&& e.target_handle == target_handle@
                &&& e.assign == Map::<Seq<char>, Seq<char>>::empty()
            }),
    {
        let id = crate::repository::fresh_id();
        let edge = Edge {
            id,
            label: None,
            source,
            target,
            source_handle,
            target_handle,
            data: EdgeData { assign: Assignment::new() },
        };
        self.edges.push(edge);
        proof {
            assert(edge_views(self.edges@).drop_last() =~= edge_views(old(self).edges@));
        }
    }

    /// Removes every wire between the given endpoints.
    pub fn remove_edge(
        &mut self,
        source: &String,
        target: &String,
        source_handle: &String,
        target_handle: &String,
    )
        requires
            old(self).wf(),
        ensures
            final(self).wf(),
            final(self).edges_view() == kept_edges(
                old(self).edges_view(),
                source@,
                target@,
                source_handle@,
                target_handle@,
            ),
    {
        let mut rest: Vec<Edge> = Vec::new();
        core::mem::swap(&mut self.edges, &mut rest);
        proof {
            assert(edge_views(self.edges@) =~= Seq::<EdgeValue>::empty());
            assert(edge_views(rest@).skip(0) =~= edge_views(rest@));
        }
        let n = rest.len();
        let mut i: usize = 0;
        while i < n
            invariant
                n == rest@.len(),
                i <= n,
                rest@ == old(self).edges@,
                old(self).wf(),
                forall|k: int| 0 <= k < self.edges@.len() ==> (#[trigger] self.edges@[k]).wf(),
                edge_views(self.edges@) + kept_edges(
                    edge_views(rest@).skip(i as int),
                    source@,
                    target@,
                    source_handle@,
                    target_handle@,
                ) == kept_edges(
                    edge_views(rest@),
                    source@,
                    target@,
                    source_handle@,
                    target_handle@,
                ),
            decreases n - i,
        {
            let e = &rest[i];
            let ghost skipped = edge_views(rest@).skip(i as int);
            proof {
                assert(skipped[0] == edge_views(rest@)[i as int]);
                assert(skipped.drop_first() =~= edge_views(rest@).skip(i as int + 1));
            }
            let matches_all = e.source.eq(source) && e.target.eq(target) && e.source_handle.eq(
                source_handle,
            ) && e.target_handle.eq(target_handle);
            if !matches_all {
                self.edges.push(e.clone());
                proof {
                    assert(edge_views(self.edges@) + kept_edges(
                        edge_views(rest@).skip(i as int + 1),
                        source@,
                        target@,
                        source_handle@,
                        target_handle@,
                    ) =~= kept_edges(
                        edge_views(rest@),
                        source@,
                        target@,
                        source_handle@,
                        target_handle@,
                    ));
                }
            } else {
                proof {
                    assert(edge_views(self.edges@) + kept_edges(
                        edge_views(rest@).skip(i as int + 1),
                        source@,
                        target@,
                        source_handle@,
                        target_handle@,
                    ) =~= kept_edges(
                        edge_views(rest@),
                        source@,
                        target@,
                        source_handle@,
                        target_handle@,
                    ));
                }
            }
            i += 1;
        }
        proof {
            assert(edge_views(rest@).skip(n as int) =~= Seq::<EdgeValue>::empty());
            assert(edge_views(self.edges@) + Seq::<EdgeValue>::empty() =~= edge_views(
                self.edges@,
            ));
        }
    }

    /// Replaces the assignment of every edge with the given id.
    pub fn set_assignment(&mut self, id: &String, assignment: &Assignment)
        requires
            old(self).wf(),
            assignment.wf(),
        ensures
            final(self).wf(),
            final(self).edges_view().len() == old(self).edges_view().len(),
            forall|k: int|
                0 <= k < old(self).edges_view().len() ==> {
                    let before = old(self).edges_view()[k];
                    let after = #[trigger] final(self).edges_view()[k];
                    if before.id == id@ {
                        after == (EdgeValue { assign: assignment@, ..before })
                    } else {
                        after == before
                    }
                },
    {
        let n = self.edges.len();
        let mut i: usize = 0;
        while i < n
            invariant
                n == self.edges@.len(),
                i <= n,
                assignment.wf(),
                forall|k: int| 0 <= k < self.edges@.len() ==> (#[trigger] self.edges@[k]).wf(),
                forall|k: int|
                    i <= k < n ==> #[trigger] edge_views(self.edges@)[k] == edge_views(
                        old(self).edges@,
                    )[k],
                forall|k: int|
                    0 <= k < i ==> {
                        let before = edge_views(old(self).edges@)[k];
                        let after = #[trigger] edge_views(self.edges@)[k];
                        if before.id == id@ {
                            after == (EdgeValue { assign: assignment@, ..before })
                        } else {
                            after == before
                        }
                    },
            decreases n - i,
        {
            if self.edges[i].id.eq(id) {
                let fresh_assign = assignment.clone();
                let ghost prev = self.edges@;
                {
                    let e = &mut self.edges[i];
                    e.data.assign = fresh_assign;
                }
                proof {
                    let ei = self.edges@[i as int];
                    let pi = prev[i as int];
                    assert(self.edges@ == prev.update(i as int, ei));
                    assert(ei.id == pi.id && ei.label == pi.label && ei.source == pi.source
                        && ei.target == pi.target && ei.source_handle == pi.source_handle
                        && ei.target_handle == pi.target_handle);
                    assert(ei.data.assign@ == assignment@);
                    assert(ei@ == (EdgeValue { assign: assignment@, ..pi@ }));
                    assert(edge_views(prev)[i as int] == pi@);
                    assert(edge_views(self.edges@)[i as int] == ei@);
                    assert(edge_views(self.edges@)[i as int] == (EdgeValue {
                        assign: assignment@,
                        ..edge_views(old(self).edges@)[i as int]
                    }));
                    assert forall|k: int| 0 <= k < prev.len() && k != i implies #[trigger] edge_views(
                        self.edges@,
                    )[k] == edge_views(prev)[k] by {
                        assert(self.edges@[k] == prev[k]);
                    }
                }
            }
            i += 1;
        }
    }
}

} // verus!
