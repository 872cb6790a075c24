//! All waypoints of a graph: every entity that an expression selects,
//! resolved.

use crate::entity::{Entity, EntityId};
use crate::expression::NodeExpression;
use crate::graph::{precedes, Graph};
use crate::resolve::{extract_gpx_waypoint_recur, resolution, ResolutionOverflow, DEFAULT_CEILING};
use crate::waypoint::Waypoint;
use vstd::prelude::*;

verus! {

/// One selected entity and what resolving it gave: a waypoint, nothing, or
/// the report that the walk was cut short.
#[derive(Debug, PartialEq, Eq)]
pub struct Match {
    pub id: EntityId,
    pub outcome: Result<Option<Waypoint>, ResolutionOverflow>,
}

/// `found` reports on the entity `id` of `graph`, which `expression`
/// selects.
pub open spec fn reports(
    graph: Map<EntityId, Entity>,
    expression: &NodeExpression,
    default_name: Option<&str>,
    found: Match,
) -> bool {
    &&& graph.contains_key(found.id)
    &&& graph[found.id].id() == found.id
    &&& expression.matches(graph[found.id].tags()@)
    &&& resolution(graph, &graph[found.id], default_name, DEFAULT_CEILING, found.outcome)
}

/// Resolves every entity of `objs` that `expression` selects. The result
/// holds one report for each of them, in the order of `precedes`; a walk that
/// was cut short is reported and does not end the scan.
pub fn scan(
    objs: &Graph,
    expression: &NodeExpression,
    default_waypoint_name: Option<&str>,
) -> (found: Vec<Match>)
    ensures
        forall|k: int|
            0 <= k < found@.len() ==> reports(
                objs@,
                expression,
                default_waypoint_name,
                #[trigger] found@[k],
            ),
        forall|id: EntityId|
            objs@.contains_key(id) && expression.matches(objs@[id].tags()@) ==> exists|k: int|
                0 <= k < found@.len() && (#[trigger] found@[k]).id == id,
        forall|k: int, l: int|
            0 <= k < l < found@.len() ==> precedes(found@[k].id, found@[l].id),
{
    let ids = objs.ids();
    let mut found: Vec<Match> = Vec::new();
    let ghost mut picked: Seq<int> = Seq::empty();
    let mut i: usize = 0;
    while i < ids.len()
        invariant
            i <= ids@.len(),
            forall|id: EntityId| ids@.contains(id) <==> objs@.contains_key(id),
            picked.len() == found@.len(),
            forall|k: int| 0 <= k < picked.len() ==> 0 <= #[trigger] picked[k] < i,
            forall|k: int| 0 <= k < picked.len() ==> (#[trigger] found@[k]).id == ids@[picked[k]],
            forall|k: int, l: int|
                0 <= k < l < picked.len() ==> #[trigger] picked[k] < #[trigger] picked[l],
            forall|k: int|
                0 <= k < found@.len() ==> reports(
                    objs@,
                    expression,
                    default_waypoint_name,
                    #[trigger] found@[k],
                ),
            forall|j: int|
                0 <= j < i && expression.matches(objs@[#[trigger] ids@[j]].tags()@) ==> exists|
                    k: int,
                | 0 <= k < found@.len() && (#[trigger] found@[k]).id == ids@[j],
        decreases ids@.len() - i,
    {
        let id = ids[i];
        assert(ids@.contains(id));
        match objs.get(id) {
            Some(entity) => {
                if expression.matcher(entity) {
                    let outcome = extract_gpx_waypoint_recur(objs, entity, default_waypoint_name);
                    let ghost before = found@;
                    found.push(Match { id, outcome });
                    proof {
                        picked = picked.push(i as int);
                        assert forall|j: int|
                            0 <= j < i + 1 && expression.matches(
                                objs@[#[trigger] ids@[j]].tags()@,
                            ) implies exists|k: int|
                            0 <= k < found@.len() && (#[trigger] found@[k]).id == ids@[j] by {
                            if j < i {
                                let k = choose|k: int|
                                    0 <= k < before.len() && (#[trigger] before[k]).id == ids@[j];
                                assert(found@[k].id == ids@[j]);
                            } else {
                                assert(found@[found@.len() - 1].id == ids@[j]);
                            }
                        }
                    }
                }
            },
            None => {},
        }
        i += 1;
    }
    proof {
        assert forall|id: EntityId|
            objs@.contains_key(id) && expression.matches(objs@[id].tags()@) implies exists|k: int|
            0 <= k < found@.len() && (#[trigger] found@[k]).id == id by {
            assert(ids@.contains(id));
            let j = choose|j: int| 0 <= j < ids@.len() && ids@[j] == id;
            assert(expression.matches(objs@[ids@[j]].tags()@));
        }
    }
    found
}

} // verus!
