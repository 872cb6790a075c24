//! Map entities: nodes, ways and relations, and what each refers to.

use crate::tags::Tags;
use vstd::prelude::*;

verus! {

/// The identifier of an entity. A number names one entity among those of its
/// kind; the same number may name a node, a way and a relation.
#[derive(Clone, Copy, Debug, PartialEq, Eq, Structural)]
pub enum EntityId {
    Node(i64),
    Way(i64),
    Relation(i64),
}

/// A point of the map, in units of 1e-7 degree.
#[derive(Clone, Copy, Debug, PartialEq, Eq, Structural)]
pub struct Point {
    pub decimicro_lon: i32,
    pub decimicro_lat: i32,
}

/// A node: one point with tags.
#[derive(Clone, Debug)]
pub struct Node {
    pub id: i64,
    pub tags: Tags,
    pub decimicro_lat: i32,
    pub decimicro_lon: i32,
}

/// A way: a list of nodes with tags.
#[derive(Clone, Debug)]
pub struct Way {
    pub id: i64,
    pub tags: Tags,
    pub nodes: Vec<i64>,
}

/// A relation: a list of members of any kind with tags.
#[derive(Clone, Debug)]
pub struct Relation {
    pub id: i64,
    pub tags: Tags,
    pub refs: Vec<EntityId>,
}

/// An entity of the map.
#[derive(Clone, Debug)]
pub enum Entity {
    Node(Node),
    Way(Way),
    Relation(Relation),
}

impl Node {
    /// Where the node lies.
    pub open spec fn spec_point(&self) -> Point {
        Point { decimicro_lon: self.decimicro_lon, decimicro_lat: self.decimicro_lat }
    }

    /// Where the node lies.
    #[verifier::when_used_as_spec(spec_point)]
    pub fn point(&self) -> (point: Point)
        ensures
            point == self.spec_point(),
    {
        Point { decimicro_lon: self.decimicro_lon, decimicro_lat: self.decimicro_lat }
    }
}

/// The identifiers of the nodes numbered `nodes`, in the same order.
pub open spec fn node_ids(nodes: Seq<i64>) -> Seq<EntityId> {
    Seq::new(nodes.len(), |i: int| EntityId::Node(nodes[i]))
}

impl Entity {
    /// The identifier under which the entity is known.
    pub open spec fn spec_id(&self) -> EntityId {
        match self {
            Entity::Node(node) => EntityId::Node(node.id),
            Entity::Way(way) => EntityId::Way(way.id),
            Entity::Relation(relation) => EntityId::Relation(relation.id),
        }
    }

    /// The tags of the entity.
    pub open spec fn spec_tags(&self) -> &Tags {
        match self {
            Entity::Node(node) => &node.tags,
            Entity::Way(way) => &way.tags,
            Entity::Relation(relation) => &relation.tags,
        }
    }

    /// What the entity refers to: a node to itself, a way to its nodes, a
    /// relation to its members, in the order in which they are listed.
    pub open spec fn spec_dependencies(&self) -> Seq<EntityId> {
        match self {
            Entity::Node(node) => seq![EntityId::Node(node.id)],
            Entity::Way(way) => node_ids(way.nodes@),
            Entity::Relation(relation) => relation.refs@,
        }
    }

    /// The identifier under which the entity is known.
    #[verifier::when_used_as_spec(spec_id)]
    pub fn id(&self) -> (id: EntityId)
        ensures
            id == self.spec_id(),
    {
        match self {
            Entity::Node(node) => EntityId::Node(node.id),
            Entity::Way(way) => EntityId::Way(way.id),
            Entity::Relation(relation) => EntityId::Relation(relation.id),
        }
    }

    /// The tags of the entity.
    #[verifier::when_used_as_spec(spec_tags)]
    pub fn tags(&self) -> (tags: &Tags)
        ensures
            tags == self.spec_tags(),
    {
        match self {
            Entity::Node(node) => &node.tags,
            Entity::Way(way) => &way.tags,
            Entity::Relation(relation) => &relation.tags,
        }
    }

    /// What the entity refers to: a node to itself, a way to its nodes, a
    /// relation to its members, in the order in which they are listed.
    pub fn dependencies(&self) -> (ids: Vec<EntityId>)
        ensures
            ids@ == self.spec_dependencies(),
    {
        let mut ids: Vec<EntityId> = Vec::new();
        match self {
            Entity::Node(node) => {
                ids.push(EntityId::Node(node.id));
            },
            Entity::Way(way) => {
                let mut i: usize = 0;
                while i < way.nodes.len()
                    invariant
                        i <= way.nodes@.len(),
                        ids@ == node_ids(way.nodes@.take(i as int)),
                    decreases way.nodes@.len() - i,
                {
                    ids.push(EntityId::Node(way.nodes[i]));
                    i += 1;
                    assert(ids@ =~= node_ids(way.nodes@.take(i as int)));
                }
                assert(way.nodes@.take(i as int) =~= way.nodes@);
            },
            Entity::Relation(relation) => {
                let mut i: usize = 0;
                while i < relation.refs.len()
                    invariant
                        i <= relation.refs@.len(),
                        ids@ == relation.refs@.take(i as int),
                    decreases relation.refs@.len() - i,
                {
                    ids.push(relation.refs[i]);
                    i += 1;
                    assert(ids@ =~= relation.refs@.take(i as int));
                }
                assert(relation.refs@.take(i as int) =~= relation.refs@);
            },
        }
        ids
    }
}

} // verus!
