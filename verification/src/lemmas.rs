//! What holds of every walk, and of the walks from nodes, ways and
//! relations of a given shape.

use crate::entity::{node_ids, Entity, EntityId, Node, Point, Relation, Way};
use crate::resolve::{
    known_points, node_point, resolution, step, walk, ResolutionOverflow, Step, Walk,
    DEFAULT_CEILING,
};
use crate::waypoint::{centroid_of, lemma_single_point, same_place, Centroid, Waypoint};
use vstd::prelude::*;

verus! {

/// Where the graph holds every one of `nodes`, their places are `points`.
pub proof fn lemma_known_points_of_held_nodes(
    graph: Map<EntityId, Entity>,
    nodes: Seq<i64>,
    points: Seq<Point>,
)
    requires
        points.len() == nodes.len(),
        forall|i: int| 0 <= i < nodes.len() ==> node_point(graph, nodes[i]) == Some(points[i]),
    ensures
        known_points(graph, nodes) == points,
    decreases nodes.len(),
{
    if nodes.len() > 0 {
        lemma_known_points_of_held_nodes(graph, nodes.drop_last(), points.drop_last());
        assert(points =~= points.drop_last().push(points.last()));
    } else {
        assert(points =~= Seq::<Point>::empty());
    }
}

/// The graph holds none of `nodes` exactly where `known_points` is empty.
pub proof fn lemma_no_known_points(graph: Map<EntityId, Entity>, nodes: Seq<i64>)
    ensures
        known_points(graph, nodes).len() == 0 <==> forall|i: int|
            0 <= i < nodes.len() ==> node_point(graph, #[trigger] nodes[i]) is None,
    decreases nodes.len(),
{
    if nodes.len() > 0 {
        let before = nodes.drop_last();
        lemma_no_known_points(graph, before);
        if known_points(graph, nodes).len() == 0 {
            assert forall|i: int| 0 <= i < nodes.len() implies node_point(
                graph,
                #[trigger] nodes[i],
            ) is None by {
                if i < before.len() {
                    assert(nodes[i] == before[i]);
                }
            }
        } else if node_point(graph, nodes.last()) is None {
            let i = choose|i: int|
                0 <= i < before.len() && !(node_point(graph, #[trigger] before[i]) is None);
            assert(nodes[i] == before[i]);
        }
    }
}

/// A walk that ends without overflow ends in the same way where it may
/// take more identifiers from its stack.
pub proof fn lemma_more_pops_change_nothing(
    graph: Map<EntityId, Entity>,
    pending: Seq<EntityId>,
    pops: nat,
    more: nat,
)
    requires
        !(walk(graph, pending, pops) is Overflow),
        pops <= more,
    ensures
        walk(graph, pending, more) == walk(graph, pending, pops),
    decreases pops,
{
    if pending.len() > 0 && pops > 0 {
        match step(graph, pending.last()) {
            Step::Found(_) => {},
            Step::Push(ids) => {
                lemma_more_pops_change_nothing(
                    graph,
                    pending.drop_last() + ids,
                    (pops - 1) as nat,
                    (more - 1) as nat,
                );
            },
        }
    }
}

/// Nodes that the graph does not hold are taken from the stack one by one,
/// and the walk goes on below them.
pub proof fn lemma_missing_nodes_are_passed_over(
    graph: Map<EntityId, Entity>,
    below: Seq<EntityId>,
    nodes: Seq<i64>,
    pops: nat,
)
    requires
        known_points(graph, nodes).len() == 0,
        nodes.len() <= pops,
    ensures
        walk(graph, below + node_ids(nodes), pops) == walk(
            graph,
            below,
            (pops - nodes.len()) as nat,
        ),
    decreases nodes.len(),
{
    let pending = below + node_ids(nodes);
    if nodes.len() == 0 {
        assert(pending =~= below);
    } else {
        let before = nodes.drop_last();
        lemma_no_known_points(graph, nodes);
        lemma_no_known_points(graph, before);
        assert forall|i: int| 0 <= i < before.len() implies node_point(
            graph,
            #[trigger] before[i],
        ) is None by {
            assert(before[i] == nodes[i]);
        }
        assert(pending.last() == EntityId::Node(nodes.last()));
        assert(node_point(graph, nodes[nodes.len() - 1]) is None);
        assert(step(graph, pending.last()) == Step::Push(Seq::<EntityId>::empty()));
        assert(pending.drop_last() + Seq::<EntityId>::empty() =~= below + node_ids(before));
        lemma_missing_nodes_are_passed_over(graph, below, before, (pops - 1) as nat);
    }
}

/// A way of whose nodes the graph holds at least one, taken from the stack,
/// ends the walk at the mean of the places of the nodes that the graph holds.
pub proof fn lemma_way_on_stack_ends_the_walk(
    graph: Map<EntityId, Entity>,
    pending: Seq<EntityId>,
    way: Way,
    pops: nat,
)
    requires
        pending.len() > 0,
        pending.last() == EntityId::Way(way.id),
        graph.contains_key(EntityId::Way(way.id)),
        graph[EntityId::Way(way.id)] == Entity::Way(way),
        known_points(graph, way.nodes@).len() > 0,
        pops > 0,
    ensures
        walk(graph, pending, pops) == Walk::Found(centroid_of(known_points(graph, way.nodes@))),
{
}

/// A node that the graph holds resolves to its own place. The waypoint has
/// the node's own tag `name` as its name; without that tag, the default
/// name; without a default, none.
pub proof fn lemma_node_resolves_to_itself(
    graph: Map<EntityId, Entity>,
    node: Node,
    default_name: Option<&str>,
    outcome: Result<Option<Waypoint>, ResolutionOverflow>,
)
    requires
        graph.contains_key(EntityId::Node(node.id)),
        graph[EntityId::Node(node.id)] == Entity::Node(node),
        resolution(graph, &Entity::Node(node), default_name, DEFAULT_CEILING, outcome),
    ensures
        outcome matches Ok(Some(waypoint)) && waypoint.coordinate == (Centroid {
            lon_total: node.decimicro_lon as i128,
            lat_total: node.decimicro_lat as i128,
            count: 1,
        }) && waypoint.name_view() == (if node.tags@.contains_key("name"@) {
            Some(node.tags@["name"@])
        } else {
            match default_name {
                Some(name) => Some(name@),
                None => None,
            }
        }),
{
    let start = Entity::Node(node);
    let pending = start.spec_dependencies();
    assert(pending.last() == EntityId::Node(node.id));
    lemma_single_point(node.point());
}

/// A way resolved for itself gives the mean of the places of its nodes
/// where the graph holds every one of them and the node listed last lies at
/// that mean. (The walk starts from the way's nodes and ends at the first of
/// them that it takes from the stack, which is the one listed last.)
pub proof fn lemma_way_resolves_to_centroid(
    graph: Map<EntityId, Entity>,
    way: Way,
    points: Seq<Point>,
    default_name: Option<&str>,
    outcome: Result<Option<Waypoint>, ResolutionOverflow>,
)
    requires
        points.len() == way.nodes@.len(),
        points.len() > 0,
        forall|i: int|
            0 <= i < way.nodes@.len() ==> node_point(graph, way.nodes@[i]) == Some(points[i]),
        same_place(centroid_of(seq![points.last()]), centroid_of(points)),
        resolution(graph, &Entity::Way(way), default_name, DEFAULT_CEILING, outcome),
    ensures
        outcome matches Ok(Some(waypoint)) && same_place(waypoint.coordinate, centroid_of(points)),
{
    let start = Entity::Way(way);
    let pending = start.spec_dependencies();
    let last = way.nodes@.len() - 1;
    assert(pending.last() == EntityId::Node(way.nodes@[last]));
    assert(node_point(graph, way.nodes@[last]) == Some(points[last]));
}

/// A relation whose last member is a way of the graph, of whose nodes the
/// graph holds every one, resolves to the mean of the places of these nodes.
pub proof fn lemma_relation_resolves_to_centroid_of_last_way(
    graph: Map<EntityId, Entity>,
    relation: Relation,
    way: Way,
    points: Seq<Point>,
    default_name: Option<&str>,
    outcome: Result<Option<Waypoint>, ResolutionOverflow>,
)
    requires
        relation.refs@.len() > 0,
        relation.refs@.last() == EntityId::Way(way.id),
        graph.contains_key(EntityId::Way(way.id)),
        graph[EntityId::Way(way.id)] == Entity::Way(way),
        points.len() == way.nodes@.len(),
        points.len() > 0,
        forall|i: int|
            0 <= i < way.nodes@.len() ==> node_point(graph, way.nodes@[i]) == Some(points[i]),
        resolution(graph, &Entity::Relation(relation), default_name, DEFAULT_CEILING, outcome),
    ensures
        outcome matches Ok(Some(waypoint)) && waypoint.coordinate == centroid_of(points),
{
    let start = Entity::Relation(relation);
    lemma_known_points_of_held_nodes(graph, way.nodes@, points);
    lemma_way_on_stack_ends_the_walk(
        graph,
        start.spec_dependencies(),
        way,
        DEFAULT_CEILING as nat,
    );
}

/// A relation of two ways, of which the graph holds no node of the one and
/// at least one node of the other, resolves to the mean of the other's known
/// nodes, in whichever order the two are listed. Where the way without known
/// nodes is listed last, its nodes are looked at first, one by one, so their
/// number and the two ways must stay within the ceiling.
pub proof fn lemma_relation_passes_way_without_known_nodes(
    graph: Map<EntityId, Entity>,
    relation: Relation,
    without: Way,
    other: Way,
    default_name: Option<&str>,
    outcome: Result<Option<Waypoint>, ResolutionOverflow>,
)
    requires
        graph.contains_key(EntityId::Way(without.id)),
        graph[EntityId::Way(without.id)] == Entity::Way(without),
        graph.contains_key(EntityId::Way(other.id)),
        graph[EntityId::Way(other.id)] == Entity::Way(other),
        known_points(graph, without.nodes@).len() == 0,
        known_points(graph, other.nodes@).len() > 0,
        relation.refs@ == seq![EntityId::Way(without.id), EntityId::Way(other.id)]
            || (relation.refs@ == seq![EntityId::Way(other.id), EntityId::Way(without.id)]
            && without.nodes@.len() + 2 <= DEFAULT_CEILING),
        resolution(graph, &Entity::Relation(relation), default_name, DEFAULT_CEILING, outcome),
    ensures
        outcome matches Ok(Some(waypoint)) && waypoint.coordinate == centroid_of(
            known_points(graph, other.nodes@),
        ),
{
    let start = Entity::Relation(relation);
    let pending = start.spec_dependencies();
    let ceiling = DEFAULT_CEILING as nat;
    if pending == seq![EntityId::Way(without.id), EntityId::Way(other.id)] {
        lemma_way_on_stack_ends_the_walk(graph, pending, other, ceiling);
    } else {
        let below = seq![EntityId::Way(other.id)];
        assert(pending.last() == EntityId::Way(without.id));
        assert(step(graph, pending.last()) == Step::Push(node_ids(without.nodes@)));
        assert(pending.drop_last() =~= below);
        lemma_missing_nodes_are_passed_over(graph, below, without.nodes@, (ceiling - 1) as nat);
        lemma_way_on_stack_ends_the_walk(
            graph,
            below,
            other,
            (ceiling - 1 - without.nodes@.len()) as nat,
        );
    }
}

/// The relations numbered `chain` hang one below the other in `graph`: each
/// has one member, the next of them, and the last has the member `target`.
pub open spec fn hangs_below(
    graph: Map<EntityId, Entity>,
    chain: Seq<i64>,
    target: EntityId,
) -> bool {
    forall|i: int|
        #![trigger chain[i]]
        0 <= i < chain.len() ==> {
            let id = EntityId::Relation(chain[i]);
            &&& graph.contains_key(id)
            &&& graph[id] is Relation
            &&& graph[id]->Relation_0.refs@ == seq![
                if i + 1 < chain.len() {
                    EntityId::Relation(chain[i + 1])
                } else {
                    target
                },
            ]
        }
}

/// A walk down a chain of relations takes one identifier for each of them,
/// and then goes on from what hangs below the last.
pub proof fn lemma_walk_down_chain(
    graph: Map<EntityId, Entity>,
    chain: Seq<i64>,
    target: EntityId,
    pops: nat,
)
    requires
        chain.len() > 0,
        hangs_below(graph, chain, target),
    ensures
        walk(graph, seq![EntityId::Relation(chain[0])], pops) == if chain.len() <= pops {
            walk(graph, seq![target], (pops - chain.len()) as nat)
        } else {
            Walk::Overflow
        },
    decreases chain.len(),
{
    let pending = seq![EntityId::Relation(chain[0])];
    assert(pending.last() == EntityId::Relation(chain[0]));
    if pops > 0 {
        let rest = chain.drop_first();
        let next = if chain.len() > 1 {
            EntityId::Relation(chain[1])
        } else {
            target
        };
        assert(step(graph, pending.last()) == Step::Push(seq![next]));
        assert(pending.drop_last() + seq![next] =~= seq![next]);
        if chain.len() > 1 {
            assert forall|i: int| #![trigger rest[i]] 0 <= i < rest.len() implies {
                let id = EntityId::Relation(rest[i]);
                &&& graph.contains_key(id)
                &&& graph[id] is Relation
                &&& graph[id]->Relation_0.refs@ == seq![
                    if i + 1 < rest.len() {
                        EntityId::Relation(rest[i + 1])
                    } else {
                        target
                    },
                ]
            } by {
                assert(rest[i] == chain[i + 1]);
                if i + 1 < rest.len() {
                    assert(rest[i + 1] == chain[i + 2]);
                }
            }
            assert(rest[0] == chain[1]);
            lemma_walk_down_chain(graph, rest, target, (pops - 1) as nat);
        }
    }
}

/// A relation above a chain of relations, below which hangs a way with at
/// least one known node, resolves to the mean of the way's known nodes where
/// the relations of the chain and the way are within the ceiling, and
/// overflows where they are not.
pub proof fn lemma_relation_above_chain(
    graph: Map<EntityId, Entity>,
    relation: Relation,
    chain: Seq<i64>,
    way: Way,
    default_name: Option<&str>,
    ceiling: usize,
    outcome: Result<Option<Waypoint>, ResolutionOverflow>,
)
    requires
        chain.len() > 0,
        relation.refs@ == seq![EntityId::Relation(chain[0])],
        hangs_below(graph, chain, EntityId::Way(way.id)),
        graph.contains_key(EntityId::Way(way.id)),
        graph[EntityId::Way(way.id)] == Entity::Way(way),
        known_points(graph, way.nodes@).len() > 0,
        resolution(graph, &Entity::Relation(relation), default_name, ceiling, outcome),
    ensures
        chain.len() < ceiling ==> (outcome matches Ok(Some(waypoint)) && waypoint.coordinate
            == centroid_of(known_points(graph, way.nodes@))),
        chain.len() >= ceiling ==> outcome == Err::<Option<Waypoint>, ResolutionOverflow>(
            ResolutionOverflow { ceiling },
        ),
{
    let target = EntityId::Way(way.id);
    lemma_walk_down_chain(graph, chain, target, ceiling as nat);
    if chain.len() < ceiling {
        lemma_way_on_stack_ends_the_walk(
            graph,
            seq![target],
            way,
            (ceiling - chain.len()) as nat,
        );
    } else if chain.len() == ceiling {
        assert(walk(graph, seq![target], 0) == Walk::Overflow);
    }
}

} // verus!
