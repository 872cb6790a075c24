//! From an entity to the place that stands for it.
//!
//! An entity is resolved by a walk over what it refers to. The identifiers
//! still to be looked at are kept on a stack; the walk takes the one that was
//! put there last, and ends at the first node that the graph holds, or at the
//! first way of which the graph holds at least one node. The number of
//! identifiers taken from the stack is bounded.
//!
//! The walk starts with what the entity refers to on the stack, not with the
//! entity: a way resolved for itself ends at the node listed last among
//! those that the graph holds, and the mean of a way's nodes is taken where
//! the walk comes upon the way below a relation.
//!
//! Where the graph holds none of the nodes of a way, the nodes go on the
//! stack all the same. Each is then taken and passed over: such a way costs
//! one take for itself and one for each of its nodes, and nothing else comes
//! of it (`lemma_missing_nodes_are_passed_over` in `lemmas`).

use crate::entity::{node_ids, Entity, EntityId, Point};
use crate::graph::Graph;
use crate::waypoint::{
    build_waypoint_from_node, build_waypoint_from_point, calculate_centroid, centroid_of, Centroid,
    Waypoint,
};
use vstd::prelude::*;

verus! {

/// How many identifiers a walk takes from its stack unless told otherwise.
pub const DEFAULT_CEILING: usize = 1000;

/// The walk took as many identifiers from its stack as it was allowed, and
/// more were waiting.
#[derive(Clone, Copy, Debug, PartialEq, Eq, Structural)]
pub struct ResolutionOverflow {
    pub ceiling: usize,
}

/// What looking at one identifier leads to.
pub ghost enum Step {
    /// The walk ends at this place.
    Found(Centroid),
    /// The walk goes on, with these identifiers put on the stack.
    Push(Seq<EntityId>),
}

/// How a walk ends.
pub ghost enum Walk {
    /// At this place.
    Found(Centroid),
    /// With an empty stack and no place.
    Unresolved,
    /// With identifiers waiting and none left to take.
    Overflow,
}

/// The node known under number `n`, where the graph holds one.
pub open spec fn node_point(graph: Map<EntityId, Entity>, n: i64) -> Option<Point> {
    let id = EntityId::Node(n);
    if graph.contains_key(id) && graph[id] is Node {
        Some(graph[id]->Node_0.point())
    } else {
        None
    }
}

/// The places of those of `nodes` that the graph holds, in the order of
/// `nodes`.
pub open spec fn known_points(graph: Map<EntityId, Entity>, nodes: Seq<i64>) -> Seq<Point>
    decreases nodes.len(),
{
    if nodes.len() == 0 {
        Seq::empty()
    } else {
        let before = known_points(graph, nodes.drop_last());
        match node_point(graph, nodes.last()) {
            Some(point) => before.push(point),
            None => before,
        }
    }
}

/// What looking at `id` leads to.
///
/// A node that the graph holds ends the walk at its place. A way that the
/// graph holds ends it at the mean of those of its nodes that the graph
/// holds; where it holds none of them, the way's nodes go on the stack. A
/// relation that the graph holds puts its members on the stack. An identifier
/// that the graph does not hold is passed over.
pub open spec fn step(graph: Map<EntityId, Entity>, id: EntityId) -> Step {
    if !graph.contains_key(id) {
        Step::Push(Seq::empty())
    } else {
        match (id, graph[id]) {
            (EntityId::Node(_), Entity::Node(node)) => Step::Found(centroid_of(seq![node.point()])),
            (EntityId::Way(_), Entity::Way(way)) => {
                let points = known_points(graph, way.nodes@);
                if points.len() > 0 {
                    Step::Found(centroid_of(points))
                } else {
                    Step::Push(node_ids(way.nodes@))
                }
            },
            (EntityId::Relation(_), Entity::Relation(relation)) => Step::Push(relation.refs@),
            _ => Step::Push(Seq::empty()),
        }
    }
}

/// How the walk ends that starts with the stack `pending`, its top at the
/// end, and may take `pops` identifiers from it.
pub open spec fn walk(graph: Map<EntityId, Entity>, pending: Seq<EntityId>, pops: nat) -> Walk
    decreases pops,
{
    if pending.len() == 0 {
        Walk::Unresolved
    } else if pops == 0 {
        Walk::Overflow
    } else {
        match step(graph, pending.last()) {
            Step::Found(place) => Walk::Found(place),
            Step::Push(ids) => walk(graph, pending.drop_last() + ids, (pops - 1) as nat),
        }
    }
}

/// The name of the waypoint for `start`: its own tag `name`, else the
/// default, else none.
pub open spec fn spec_waypoint_name(start: &Entity, default_name: Option<&str>) -> Option<
    Seq<char>,
> {
    if start.tags()@.contains_key("name"@) {
        Some(start.tags()@["name"@])
    } else {
        match default_name {
            Some(name) => Some(name@),
            None => None,
        }
    }
}

/// What resolving `start` in `graph` gives, where the walk may take
/// `ceiling` identifiers from its stack.
pub open spec fn resolution(
    graph: Map<EntityId, Entity>,
    start: &Entity,
    default_name: Option<&str>,
    ceiling: usize,
    outcome: Result<Option<Waypoint>, ResolutionOverflow>,
) -> bool {
    match walk(graph, start.spec_dependencies(), ceiling as nat) {
        Walk::Found(place) => outcome matches Ok(Some(waypoint)) && waypoint.coordinate == place
            && waypoint.name_view() == spec_waypoint_name(start, default_name),
        Walk::Unresolved => outcome == Ok::<Option<Waypoint>, ResolutionOverflow>(None),
        Walk::Overflow => outcome == Err::<Option<Waypoint>, ResolutionOverflow>(
            ResolutionOverflow { ceiling },
        ),
    }
}

/// The name of the waypoint for `start`: its own tag `name`, else the
/// default, else none.
pub fn waypoint_name(start: &Entity, default_name: Option<&str>) -> (name: Option<String>)
    ensures
        match name {
            Some(text) => spec_waypoint_name(start, default_name) == Some(text@),
            None => spec_waypoint_name(start, default_name) is None,
        },
{
    match start.tags().get("name") {
        Some(own) => Some(own.clone()),
        None => match default_name {
            Some(name) => Some(String::from_str(name)),
            None => None,
        },
    }
}

/// The places of those of `nodes` that the graph holds, in the order of
/// `nodes`.
pub fn collect_points(objs: &Graph, nodes: &Vec<i64>) -> (points: Vec<Point>)
    ensures
        points@ == known_points(objs@, nodes@),
{
    let mut points: Vec<Point> = Vec::new();
    let mut i: usize = 0;
    while i < nodes.len()
        invariant
            i <= nodes@.len(),
            points@ == known_points(objs@, nodes@.take(i as int)),
        decreases nodes@.len() - i,
    {
        proof {
            assert(nodes@.take(i + 1).drop_last() =~= nodes@.take(i as int));
        }
        match objs.get(EntityId::Node(nodes[i])) {
            Some(Entity::Node(node)) => {
                points.push(node.point());
            },
            _ => {},
        }
        i += 1;
    }
    proof {
        assert(nodes@.take(i as int) =~= nodes@);
    }
    points
}

/// Resolves `start_at` to a waypoint, by a walk that may take `ceiling`
/// identifiers from its stack.
pub fn resolve_within(
    objs: &Graph,
    start_at: &Entity,
    default_waypoint_name: Option<&str>,
    ceiling: usize,
) -> (outcome: Result<Option<Waypoint>, ResolutionOverflow>)
    ensures
        resolution(objs@, start_at, default_waypoint_name, ceiling, outcome),
{
    let name = waypoint_name(start_at, default_waypoint_name);
    let mut pending = start_at.dependencies();
    let mut pops: usize = 0;
    while pending.len() > 0
        invariant
            pops <= ceiling,
            walk(objs@, pending@, (ceiling - pops) as nat) == walk(
                objs@,
                start_at.spec_dependencies(),
                ceiling as nat,
            ),
            match name {
                Some(text) => spec_waypoint_name(start_at, default_waypoint_name) == Some(text@),
                None => spec_waypoint_name(start_at, default_waypoint_name) is None,
            },
        decreases ceiling - pops,
    {
        if pops >= ceiling {
            return Err(ResolutionOverflow { ceiling });
        }
        let ghost before = pending@;
        let id = pending.pop().unwrap();
        pops += 1;
        assert(pending@ =~= before.drop_last());
        match objs.get(id) {
            Some(entity) => {
                match (id, entity) {
                    (EntityId::Node(_), Entity::Node(node)) => {
                        return Ok(Some(build_waypoint_from_node(name, node)));
                    },
                    (EntityId::Way(_), Entity::Way(way)) => {
                        let places = collect_points(objs, &way.nodes);
                        match calculate_centroid(&places) {
                            Some(coordinate) => {
                                return Ok(Some(build_waypoint_from_point(name, coordinate)));
                            },
                            None => {
                                let mut ids = entity.dependencies();
                                pending.append(&mut ids);
                            },
                        }
                    },
                    (EntityId::Relation(_), Entity::Relation(_)) => {
                        let mut ids = entity.dependencies();
                        pending.append(&mut ids);
                    },
                    _ => {
                        assert(pending@ =~= before.drop_last() + Seq::<EntityId>::empty());
                    },
                }
            },
            None => {
                assert(pending@ =~= before.drop_last() + Seq::<EntityId>::empty());
            },
        }
    }
    Ok(None)
}

/// Resolves `start_at` to a waypoint, by a walk that may take
/// `DEFAULT_CEILING` identifiers from its stack.
pub fn extract_gpx_waypoint_recur(
    objs: &Graph,
    start_at: &Entity,
    default_waypoint_name: Option<&str>,
) -> (outcome: Result<Option<Waypoint>, ResolutionOverflow>)
    ensures
        resolution(objs@, start_at, default_waypoint_name, DEFAULT_CEILING, outcome),
{
    resolve_within(objs, start_at, default_waypoint_name, DEFAULT_CEILING)
}

} // verus!
