//! The replica cache: who is behind each replica id.

use std::collections::HashMap;
use vstd::prelude::*;
use crate::metadata::ReplicaDesc;

verus! {

broadcast use vstd::std_specs::hash::group_hash_axioms;

/// An in-memory mapping from replica id to replica descriptor, used to
/// route outbound messages. A later descriptor for an id replaces the
/// earlier one.
pub struct ReplicaCache {
    replicas: HashMap<u64, ReplicaDesc>,
}

/// The map after the replicas were inserted one after the other, each under
/// its own id.
pub open spec fn insert_all(map: Map<u64, ReplicaDesc>, replicas: Seq<ReplicaDesc>) -> Map<u64, ReplicaDesc>
    decreases replicas.len(),
{
    if replicas.len() == 0 {
        map
    } else {
        insert_all(map, replicas.drop_last()).insert(replicas.last().id, replicas.last())
    }
}

/// After a batch insert an id is known exactly if it was known before or a
/// replica of the batch carries it, and it maps to the last such replica of
/// the batch, or else to what it mapped to before.
pub proof fn lemma_insert_all(map: Map<u64, ReplicaDesc>, replicas: Seq<ReplicaDesc>, id: u64)
    ensures
        insert_all(map, replicas).contains_key(id) <==> map.contains_key(id) || exists|i: int|
            0 <= i < replicas.len() && (#[trigger] replicas[i]).id == id,
        (forall|i: int| 0 <= i < replicas.len() ==> (#[trigger] replicas[i]).id != id)
            ==> insert_all(map, replicas)[id] == map[id],
        forall|i: int|
            0 <= i < replicas.len() && (#[trigger] replicas[i]).id == id && (forall|j: int|
                i < j < replicas.len() ==> (#[trigger] replicas[j]).id != id) ==> insert_all(
                map,
                replicas,
            )[id] == replicas[i],
    decreases replicas.len(),
{
    if replicas.len() > 0 {
        let front = replicas.drop_last();
        lemma_insert_all(map, front, id);
        if replicas.last().id == id {
            assert(replicas[replicas.len() - 1].id == id);
        } else {
            if exists|i: int| 0 <= i < replicas.len() && (#[trigger] replicas[i]).id == id {
                let i = choose|i: int| 0 <= i < replicas.len() && (#[trigger] replicas[i]).id == id;
                assert(front[i].id == id);
            }
            if exists|i: int| 0 <= i < front.len() && (#[trigger] front[i]).id == id {
                let i = choose|i: int| 0 <= i < front.len() && (#[trigger] front[i]).id == id;
                assert(replicas[i].id == id);
            }
            assert forall|i: int|
                0 <= i < replicas.len() && (#[trigger] replicas[i]).id == id && (forall|j: int|
                    i < j < replicas.len() ==> (#[trigger] replicas[j]).id != id) implies insert_all(
                map,
                replicas,
            )[id] == replicas[i] by {
                assert(front[i] == replicas[i]);
                assert forall|j: int| i < j < front.len() implies (#[trigger] front[j]).id != id by {
                    assert(replicas[j].id != id);
                }
            }
            assert((forall|i: int| 0 <= i < replicas.len() ==> (#[trigger] replicas[i]).id != id)
                ==> (forall|i: int| 0 <= i < front.len() ==> (#[trigger] front[i]).id != id)) by {
                if forall|i: int| 0 <= i < replicas.len() ==> (#[trigger] replicas[i]).id != id {
                    assert forall|i: int| 0 <= i < front.len() implies (#[trigger] front[i]).id != id by {
                        assert(replicas[i].id != id);
                    }
                }
            }
        }
    }
}

impl View for ReplicaCache {
    type V = Map<u64, ReplicaDesc>;

    closed spec fn view(&self) -> Map<u64, ReplicaDesc> {
        self.replicas@
    }
}

impl ReplicaCache {
    /// An empty cache.
    pub fn new() -> (cache: ReplicaCache)
        ensures
            cache@ == Map::<u64, ReplicaDesc>::empty(),
    {
        ReplicaCache { replicas: HashMap::new() }
    }

    /// Records a replica under its id, replacing what was known of that id.
    pub fn insert(&mut self, replica: ReplicaDesc)
        ensures
            final(self)@ == old(self)@.insert(replica.id, replica),
    {
        self.replicas.insert(replica.id, replica);
    }

    /// Records each replica of a list, in order.
    pub fn batch_insert(&mut self, replicas: &Vec<ReplicaDesc>)
        ensures
            final(self)@ == insert_all(old(self)@, replicas@),
    {
        let mut i: usize = 0;
        assert(replicas@.take(0) == Seq::<ReplicaDesc>::empty());
        while i < replicas.len()
            invariant
                i <= replicas.len(),
                self@ == insert_all(old(self)@, replicas@.take(i as int)),
            decreases replicas.len() - i,
        {
            assert(replicas@.take(i + 1).drop_last() == replicas@.take(i as int));
            self.replicas.insert(replicas[i].id, replicas[i]);
            i += 1;
        }
        assert(replicas@.take(replicas.len() as int) == replicas@);
    }

    /// Looks a replica up by id.
    pub fn get(&self, id: u64) -> (replica: Option<ReplicaDesc>)
        ensures
            replica == if self@.contains_key(id) {
                Some(self@[id])
            } else {
                None
            },
    {
        match self.replicas.get(&id) {
            Some(replica) => Some(*replica),
            None => None,
        }
    }
}

} // verus!
