//! The entities of a map, found by identifier.

use crate::entity::{Entity, EntityId};
use std::collections::BTreeMap;
use vstd::prelude::*;
use vstd::std_specs::cmp::OrdSpec;
use vstd::std_specs::iter::IteratorSpec;

verus! {

broadcast use {vstd::std_specs::btree::group_btree_axioms, vstd::laws_cmp::group_laws_cmp};

/// The entities of a map, each under its identifier. An identifier that a
/// way or a relation mentions need not be among them.
#[derive(Debug)]
pub struct Graph {
    entities: BTreeMap<(u8, i64), Entity>,
}

/// The key under which an entity is kept: nodes before ways before
/// relations, and by number within a kind.
pub open spec fn spec_key_of(id: EntityId) -> (u8, i64) {
    match id {
        EntityId::Node(n) => (0u8, n),
        EntityId::Way(n) => (1u8, n),
        EntityId::Relation(n) => (2u8, n),
    }
}

#[verifier::when_used_as_spec(spec_key_of)]
fn key_of(id: EntityId) -> (key: (u8, i64))
    ensures
        key == spec_key_of(id),
{
    match id {
        EntityId::Node(n) => (0u8, n),
        EntityId::Way(n) => (1u8, n),
        EntityId::Relation(n) => (2u8, n),
    }
}

/// The order in which the entities of a graph are listed: nodes before ways
/// before relations, and within a kind the smaller number first.
pub open spec fn precedes(a: EntityId, b: EntityId) -> bool {
    let first = spec_key_of(a);
    let second = spec_key_of(b);
    first.0 < second.0 || (first.0 == second.0 && first.1 < second.1)
}

impl View for Graph {
    type V = Map<EntityId, Entity>;

    closed spec fn view(&self) -> Map<EntityId, Entity> {
        Map::new(
            |id: EntityId| self.entities@.contains_key(spec_key_of(id)),
            |id: EntityId| self.entities@[spec_key_of(id)],
        )
    }
}

impl Graph {
    #[verifier::type_invariant]
    spec fn keyed_by_id(&self) -> bool {
        forall|key: (u8, i64)| #[trigger]
            self.entities@.contains_key(key) ==> spec_key_of(self.entities@[key].id()) == key
    }

    /// A graph without entities.
    pub fn new() -> (graph: Graph)
        ensures
            graph@ == Map::<EntityId, Entity>::empty(),
    {
        let graph = Graph { entities: BTreeMap::new() };
        assert(graph@ =~= Map::<EntityId, Entity>::empty());
        graph
    }

    /// Puts `entity` under its identifier, in place of what was there.
    pub fn insert(&mut self, entity: Entity)
        ensures
            final(self)@ == old(self)@.insert(entity.id(), entity),
    {
        proof {
            use_type_invariant(&*self);
        }
        let id = entity.id();
        let ghost held = entity;
        let mut taken = Graph::new();
        core::mem::swap(self, &mut taken);
        let Graph { entities } = taken;
        let mut entities = entities;
        entities.insert(key_of(id), entity);
        *self = Graph { entities };
        assert(self@ =~= old(self)@.insert(id, held)) by {
            assert forall|other: EntityId| other != id implies spec_key_of(other) != spec_key_of(
                id,
            ) by {}
        }
    }

    /// The identifiers of all entities of the graph, each once, in the order
    /// of `precedes`.
    pub fn ids(&self) -> (ids: Vec<EntityId>)
        ensures
            forall|id: EntityId| ids@.contains(id) <==> self@.contains_key(id),
            forall|i: int, j: int| 0 <= i < j < ids@.len() ==> precedes(ids@[i], ids@[j]),
    {
        proof {
            use_type_invariant(self);
        }
        let mut ids: Vec<EntityId> = Vec::new();
        let ghost entries = self.entities.iter().remaining();
        for entry in it: self.entities.iter()
            invariant
                self.keyed_by_id(),
                it.seq() == entries,
                entries == self.entities.iter().remaining(),
                ids@.len() == it.index(),
                forall|i: int| 0 <= i < it.index() ==> spec_key_of(ids@[i]) == *entries[i].0,
        {
            assert(self.entities@.contains_key(*entries[it.index()].0));
            ids.push(entry.1.id());
        }
        proof {
            let keys = entries.map_values(|kv: (&(u8, i64), &Entity)| *kv.0);
            assert forall|id: EntityId| self@.contains_key(id) implies ids@.contains(id) by {
                let key = spec_key_of(id);
                assert(entries.contains((&key, &self.entities@[key])));
                let i = choose|i: int| 0 <= i < entries.len() && entries[i] == (
                    &key,
                    &self.entities@[key],
                );
                assert(spec_key_of(ids@[i]) == spec_key_of(id));
                assert(ids@[i] == id);
            }
            assert forall|id: EntityId| ids@.contains(id) implies self@.contains_key(id) by {
                let i = choose|i: int| 0 <= i < ids@.len() && ids@[i] == id;
                assert(self.entities@.contains_key(*entries[i].0));
            }
            assert forall|i: int, j: int| 0 <= i < j < ids@.len() implies precedes(
                ids@[i],
                ids@[j],
            ) by {
                assert(keys[i].cmp_spec(&keys[j]) is Less);
            }
        }
        ids
    }

    /// The entity known under `id`.
    pub fn get(&self, id: EntityId) -> (found: Option<&Entity>)
        ensures
            match found {
                Some(entity) => self@.contains_key(id) && *entity == self@[id] && entity.id() == id,
                None => !self@.contains_key(id),
            },
    {
        proof {
            use_type_invariant(self);
        }
        let key = key_of(id);
        let found = self.entities.get(&key);
        assert(found matches Some(entity) ==> spec_key_of(entity.id()) == spec_key_of(id));
        found
    }
}

} // verus!
