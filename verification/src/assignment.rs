use vstd::prelude::*;

use crate::assoc::AssocList;
use crate::assoc::map_of;
use crate::error::MrDamianError;
use crate::message::Message;
use crate::message::PropertyValue;

verus! {

/// An assignment: a map from consumer property names to the producer
/// property names whose values they take.
pub type Assignment = AssocList<String>;

impl Clone for Assignment {
    /// A copy denoting the same map.
    fn clone(&self) -> (r: Self)
        ensures
            r@ == self@,
            r.wf(),
    {
        let mut r = Assignment::new();
        let n = self.num_entries();
        let mut i: usize = 0;
        while i < n
            invariant
                n == self.entry_seq().len(),
                i <= n,
                r.wf(),
                r@ == map_of(self.entry_seq().take(i as int)),
            decreases n - i,
        {
            proof {
                crate::assoc::lemma_map_of_push(
                    self.entry_seq().take(i as int),
                    self.entry_seq()[i as int],
                );
                assert(self.entry_seq().take(i as int).push(self.entry_seq()[i as int])
                    =~= self.entry_seq().take(i as int + 1));
            }
            let key = self.key_at(i).clone();
            let value = self.value_at(i).clone();
            r.insert(key, value);
            i += 1;
        }
        proof {
            assert(self.entry_seq().take(n as int) =~= self.entry_seq());
            self.lemma_view_is_map_of();
        }
        r
    }
}

/// Whether every producer property an assignment references exists in the
/// message.
pub open spec fn projection_defined(
    m: Map<Seq<char>, PropertyValue>,
    a: Map<Seq<char>, Seq<char>>,
) -> bool {
    forall|ck: Seq<char>| a.contains_key(ck) ==> m.contains_key(#[trigger] a[ck])
}

/// The projection of a message through an assignment: exactly the consumer
/// keys of the assignment, each bound to the producer property it selects.
pub open spec fn projected(
    m: Map<Seq<char>, PropertyValue>,
    a: Map<Seq<char>, Seq<char>>,
) -> Map<Seq<char>, PropertyValue> {
    Map::new(|ck: Seq<char>| a.contains_key(ck), |ck: Seq<char>| m[a[ck]])
}

/// Builds the message a consumer receives: for each entry `(ck -> pk)` of
/// the assignment, the producer property under `pk` is copied to the
/// outgoing message under `ck`.  Properties the assignment does not
/// reference are dropped.  Fails with `MessageKeyNotFound`, producing
/// nothing, exactly when some referenced producer property is absent.
pub fn project(message: &Message, assignment: &Assignment) -> (r: Result<
    Message,
    MrDamianError,
>)
    requires
        message.wf(),
        assignment.wf(),
    ensures
        match r {
            Ok(out) => projection_defined(message@, assignment@) && out.wf() && out@
                == projected(message@, assignment@),
            Err(e) => e == MrDamianError::MessageKeyNotFound && !projection_defined(
                message@,
                assignment@,
            ),
        },
{
    let mut out = Message::new();
    let n = assignment.num_entries();
    let mut i: usize = 0;
    while i < n
        invariant
            n == assignment.entry_seq().len(),
            i <= n,
            message.wf(),
            assignment.wf(),
            out.wf(),
            forall|j: int| 0 <= j < i ==> message@.contains_key(
                #[trigger] assignment.entry_seq()[j].1@,
            ),
            forall|j: int| 0 <= j < i ==> out@.contains_key(
                #[trigger] assignment.entry_seq()[j].0@,
            ) && out@[assignment.entry_seq()[j].0@] == message@[assignment.entry_seq()[j].1@],
            forall|k: Seq<char>| out@.contains_key(k) ==> exists|j: int|
                0 <= j < i && #[trigger] assignment.entry_seq()[j].0@ == k,
        decreases n - i,
    {
        let ck = assignment.key_at(i);
        let pk = assignment.value_at(i);
        match message.get(pk) {
            Some(p) => {
                let ghost out0 = out@;
                out.insert(ck.clone(), p.clone());
                proof {
                    assert forall|k: Seq<char>| out@.contains_key(k) implies exists|j: int|
                        0 <= j < i + 1 && #[trigger] assignment.entry_seq()[j].0@ == k by {
                        if k != assignment.entry_seq()[i as int].0@ {
                            assert(out0.contains_key(k));
                        }
                    }
                }
            },
            None => {
                proof {
                    assignment.lemma_entry_in_view(i as int);
                }
                return Err(MrDamianError::MessageKeyNotFound);
            },
        }
        i += 1;
    }
    proof {
        assert forall|ck: Seq<char>| assignment@.contains_key(ck) implies message@.contains_key(
            #[trigger] assignment@[ck],
        ) by {
            assignment.lemma_view_covered(ck);
            let j = choose|j: int|
                0 <= j < assignment.entry_seq().len() && #[trigger] assignment.entry_seq()[j].0@
                    == ck;
            assignment.lemma_entry_in_view(j);
        }
        assert forall|k: Seq<char>| #[trigger] assignment@.dom().contains(k) implies
            out@.dom().contains(k) && out@[k] == message@[assignment@[k]] by {
            assignment.lemma_view_covered(k);
            let j = choose|j: int|
                0 <= j < assignment.entry_seq().len()
                    && #[trigger] assignment.entry_seq()[j].0@ == k;
            assignment.lemma_entry_in_view(j);
        }
        assert forall|k: Seq<char>| #[trigger] out@.dom().contains(k) implies
            assignment@.dom().contains(k) by {
            let j = choose|j: int|
                0 <= j < i && #[trigger] assignment.entry_seq()[j].0@ == k;
            assignment.lemma_entry_in_view(j);
        }
        assert(out@.dom() =~= projected(message@, assignment@).dom());
        assert(out@ =~= projected(message@, assignment@));
    }
    Ok(out)
}

/// The projection law: the delivered message has exactly the consumer keys
/// of the assignment, and each consumer key carries the producer property
/// its assignment entry selects.
pub proof fn lemma_projection_law(
    m: Map<Seq<char>, PropertyValue>,
    a: Map<Seq<char>, Seq<char>>,
)
    requires
        projection_defined(m, a),
    ensures
        projected(m, a).dom() == a.dom(),
        forall|ck: Seq<char>| a.contains_key(ck) ==> #[trigger] projected(m, a)[ck] == m[a[ck]],
{
    assert(projected(m, a).dom() =~= a.dom());
}

} // verus!
