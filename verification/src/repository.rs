use vstd::prelude::*;

use crate::builder::Handles;
use crate::builder::built_matches;
use crate::connection::send_outcome;
use crate::error::MrDamianError;
use crate::message::Packet;
use crate::factory::Factory;
use crate::factory::factory;
use crate::factory::find_entry;
use crate::model::Kind;
use crate::model::Pipeline;
use crate::model::component_views;

verus! {

/// Relies on ulid::Ulid::generate and its canonical text form: a fresh
/// identifier is always 26 characters of Crockford base32.  Which
/// identifier comes back depends on the clock and on randomness, so
/// nothing more is promised.
#[verifier::external_body]
pub(crate) fn fresh_id() -> (r: String)
    ensures
        r@.len() == 26,
{
    ulid::Ulid::generate().to_string()
}

/// The running side of the pipeline state: the description last built, and
/// the built pipeline that implements it.
#[derive(Debug)]
pub struct RunningPipeline {
    description: Pipeline,
    handles: Handles,
}

impl RunningPipeline {
    /// The description the running pipeline was built from.
    pub closed spec fn description_view(&self) -> crate::model::PipelineValue {
        self.description@
    }

    /// The built pipeline currently running.
    pub closed spec fn handles_view(&self) -> Handles {
        self.handles
    }

    pub closed spec fn wf(&self) -> bool {
        self.description.wf() && self.handles.wf()
    }

    /// Starts with the empty description built into an empty pipeline.
    pub fn new(registry: &Factory) -> (r: Self)
        ensures
            r.wf(),
            r.description_view().components.len() == 0,
            r.description_view().connections.len() == 0,
            built_matches(registry@, r.description_view(), r.handles_view()),
    {
        let description = Pipeline::empty();
        let handles = registry.create_pipeline(&description);
        RunningPipeline { description, handles }
    }

    /// A snapshot of the current description.
    pub fn get(&self) -> (r: Pipeline)
        ensures
            r@ == self.description_view(),
    {
        self.description.clone()
    }

    /// Replaces the pipeline atomically: the replacement is built first,
    /// then the description and the built pipeline are swapped together,
    /// and the whole previous build is handed back for the runtime layer
    /// to abort.  After this returns, `get` returns the new description
    /// and every packet is routed by the pipeline built from it alone.
    pub fn set(&mut self, registry: &Factory, updated: Pipeline) -> (prev: Handles)
        requires
            old(self).wf(),
            updated.wf(),
        ensures
            final(self).wf(),
            final(self).description_view() == updated@,
            final(self).handles_view().wf(),
            built_matches(registry@, updated@, final(self).handles_view()),
            prev == old(self).handles_view(),
    {
        let mut replacement = registry.create_pipeline(&updated);
        core::mem::swap(&mut self.handles, &mut replacement);
        self.description = updated;
        replacement
    }

    /// How many component instances the running pipeline has.
    pub fn instance_count(&self) -> (r: usize)
        ensures
            r == self.handles_view().instances@.len(),
    {
        self.handles.instances.len()
    }

    /// The kind of the instance at an index.
    pub fn instance_kind(&self, index: usize) -> (r: String)
        requires
            index < self.handles_view().instances@.len(),
        ensures
            r@ == self.handles_view().instances@[index as int].kind.0@,
    {
        self.handles.instances[index].kind.0.clone()
    }

    /// Whether some input queue of the running pipeline is at its bound;
    /// the runtime layer suspends producers while this holds.
    pub fn saturated(&self) -> (r: bool)
        ensures
            r == exists|i: int|
                0 <= i < self.handles_view().fabric.conns@.len()
                    && (#[trigger] self.handles_view().fabric.conns@[i]).input@.len()
                    >= crate::port::QUEUE_CAPACITY,
    {
        let n = self.handles.fabric.conns.len();
        let mut i: usize = 0;
        while i < n
            invariant
                n == self.handles.fabric.conns@.len(),
                i <= n,
                forall|j: int| 0 <= j < i ==> (
                #[trigger] self.handles.fabric.conns@[j]).input@.len()
                    < crate::port::QUEUE_CAPACITY,
            decreases n - i,
        {
            if self.handles.fabric.conns[i].input.is_saturated() {
                proof {
                    assert(self.handles.fabric.conns@[i as int].input@.len()
                        >= crate::port::QUEUE_CAPACITY);
                    assert(exists|j: int|
                        0 <= j < self.handles.fabric.conns@.len()
                            && (#[trigger] self.handles.fabric.conns@[j]).input@.len()
                            >= crate::port::QUEUE_CAPACITY);
                    assert(self.handles_view() == self.handles);
                }
                return true;
            }
            i += 1;
        }
        proof {
            assert(!(exists|j: int|
                0 <= j < self.handles.fabric.conns@.len()
                    && (#[trigger] self.handles.fabric.conns@[j]).input@.len()
                    >= crate::port::QUEUE_CAPACITY)) by {
                if exists|j: int|
                    0 <= j < self.handles.fabric.conns@.len()
                        && (#[trigger] self.handles.fabric.conns@[j]).input@.len()
                        >= crate::port::QUEUE_CAPACITY {
                    let j = choose|j: int|
                        0 <= j < self.handles.fabric.conns@.len()
                            && (#[trigger] self.handles.fabric.conns@[j]).input@.len()
                            >= crate::port::QUEUE_CAPACITY;
                    assert(self.handles.fabric.conns@[j].input@.len()
                        < crate::port::QUEUE_CAPACITY);
                }
            }
        }
        false
    }

    /// Routes one packet from the instance at `index` through the running
    /// fabric, as `Fabric::send` does.
    pub fn route(&mut self, index: usize, packet: Packet) -> (r: Result<(), MrDamianError>)
        requires
            old(self).wf(),
            index < old(self).handles_view().instances@.len(),
            packet.wf(),
        ensures
            final(self).wf(),
            final(self).description_view() == old(self).description_view(),
            final(self).handles_view().instances == old(self).handles_view().instances,
            send_outcome(
                old(self).handles_view().fabric,
                final(self).handles_view().fabric,
                index as int,
                packet,
                r,
            ),
    {
        self.handles.fabric.send(index, packet)
    }

    /// Takes the oldest packet queued for the instance at `index`; `None`
    /// exactly when its queue is empty.
    pub fn receive_at(&mut self, index: usize) -> (r: Option<Packet>)
        requires
            old(self).wf(),
            index < old(self).handles_view().instances@.len(),
        ensures
            final(self).wf(),
            final(self).description_view() == old(self).description_view(),
            final(self).handles_view().instances == old(self).handles_view().instances,
            final(self).handles_view().fabric.conns@.len() == old(
                self,
            ).handles_view().fabric.conns@.len(),
            forall|j: int| 0 <= j < old(self).handles_view().fabric.conns@.len() && j != index
                ==> final(self).handles_view().fabric.conns@[j] == old(
                self,
            ).handles_view().fabric.conns@[j],
            ({
                let before = old(self).handles_view().fabric.conns@[index as int].input@;
                let after = final(self).handles_view().fabric.conns@[index as int].input@;
                match r {
                    Some(p) => before.len() > 0 && p@ == before[0] && p.wf() && after
                        == before.drop_first(),
                    None => before.len() == 0 && after == before,
                }
            }),
    {
        self.handles.fabric.conns[index].receive()
    }
}

/// The editing side of the pipeline state: the description under edit.
#[derive(Debug)]
pub struct EditingPipeline {
    description: Pipeline,
}

impl EditingPipeline {
    /// The description under edit.
    pub closed spec fn description_view(&self) -> crate::model::PipelineValue {
        self.description@
    }

    pub closed spec fn wf(&self) -> bool {
        self.description.wf()
    }

    pub fn new() -> (r: Self)
        ensures
            r.wf(),
            r.description_view().components.len() == 0,
            r.description_view().connections.len() == 0,
    {
        EditingPipeline { description: Pipeline::empty() }
    }

    /// A snapshot of the description under edit.
    pub fn get(&self) -> (r: Pipeline)
        ensures
            r@ == self.description_view(),
    {
        self.description.clone()
    }

    /// Replaces the description under edit.
    pub fn set(&mut self, updated: Pipeline)
        requires
            updated.wf(),
        ensures
            final(self).wf(),
            final(self).description_view() == updated@,
    {
        self.description = updated;
    }

    /// Appends a component of a registered kind under a freshly generated
    /// id and hands the id back; an unregistered kind changes nothing.
    pub fn create_component(&mut self, registry: &Factory, kind: &Kind) -> (r: Option<String>)
        requires
            old(self).wf(),
        ensures
            final(self).wf(),
            match r {
                Some(id) => {
                    &&& id@.len() == 26
                    &&& find_entry(registry@, kind.0@) is Some
                    &&& final(self).description_view().connections == old(
                        self,
                    ).description_view().connections
                    &&& final(self).description_view().components.len() == old(
                        self,
                    ).description_view().components.len() + 1
                    &&& final(self).description_view().components.last().id == id@
                    &&& final(self).description_view().components.last().kind == kind.0@
                    &&& final(self).description_view().components.take(
                        old(self).description_view().components.len() as int,
                    ) == old(self).description_view().components
                },
                None => find_entry(registry@, kind.0@) is None && final(self).description_view()
                    == old(self).description_view(),
            },
    {
        let id = fresh_id();
        match registry.create_component(kind, &id) {
            Ok(component) => {
                self.description.components.push(component);
                proof {
                    assert(component_views(self.description.components@).take(
                        old(self).description.components@.len() as int,
                    ) =~= component_views(old(self).description.components@));
                }
                Some(id)
            },
            Err(_) => None,
        }
    }
}

/// The two repositories of the pipeline state: the running pipeline and
/// the description under edit.
#[derive(Debug)]
pub struct PipelineRepositories {
    pub running: RunningPipeline,
    pub editing: EditingPipeline,
}

impl PipelineRepositories {
    /// Both sides start from the empty description; the running side is
    /// built through the standard registry.
    pub fn new() -> (r: Self)
        ensures
            r.running.wf(),
            r.editing.wf(),
            r.running.description_view().components.len() == 0,
            r.editing.description_view().components.len() == 0,
    {
        let registry = factory();
        PipelineRepositories {
            running: RunningPipeline::new(&registry),
            editing: EditingPipeline::new(),
        }
    }
}

} // verus!
