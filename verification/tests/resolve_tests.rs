use osm_gpx::entity::{Entity, EntityId, Node, Point, Relation, Way};
use osm_gpx::expression::NodeExpression;
use osm_gpx::graph::Graph;
use osm_gpx::resolve::{
    collect_points, extract_gpx_waypoint_recur, resolve_within, waypoint_name, ResolutionOverflow,
    DEFAULT_CEILING,
};
use osm_gpx::tags::Tags;
use osm_gpx::waypoint::{
    build_waypoint_from_node, build_waypoint_from_point, calculate_centroid, Centroid, Waypoint,
};

fn tags_of(pairs: &[(&str, &str)]) -> Tags {
    let mut tags = Tags::new();
    for (key, value) in pairs {
        tags.insert(key.to_string(), value.to_string());
    }
    tags
}

fn node(id: i64, lon: i32, lat: i32, pairs: &[(&str, &str)]) -> Entity {
    Entity::Node(Node { id, tags: tags_of(pairs), decimicro_lat: lat, decimicro_lon: lon })
}

fn way(id: i64, nodes: &[i64], pairs: &[(&str, &str)]) -> Entity {
    Entity::Way(Way { id, tags: tags_of(pairs), nodes: nodes.to_vec() })
}

fn relation(id: i64, refs: &[EntityId], pairs: &[(&str, &str)]) -> Entity {
    Entity::Relation(Relation { id, tags: tags_of(pairs), refs: refs.to_vec() })
}

fn graph_of(entities: Vec<Entity>) -> Graph {
    let mut graph = Graph::new();
    for entity in entities {
        graph.insert(entity);
    }
    graph
}

fn at(lon: i128, lat: i128, count: usize, name: Option<&str>) -> Waypoint {
    Waypoint {
        coordinate: Centroid { lon_total: lon, lat_total: lat, count },
        name: name.map(|n| n.to_string()),
    }
}

#[test]
fn the_default_ceiling_is_a_thousand() {
    assert_eq!(DEFAULT_CEILING, 1000);
}

#[test]
fn a_node_resolves_to_its_own_place_and_name() {
    let start = node(1, 131234567, 481234567, &[("name", "Spring")]);
    let graph = graph_of(vec![start.clone()]);
    assert_eq!(
        extract_gpx_waypoint_recur(&graph, &start, Some("Default")),
        Ok(Some(at(131234567, 481234567, 1, Some("Spring"))))
    );
}

#[test]
fn a_node_without_name_takes_the_default() {
    let start = node(1, -5, 7, &[("amenity", "bench")]);
    let graph = graph_of(vec![start.clone()]);
    assert_eq!(
        extract_gpx_waypoint_recur(&graph, &start, Some("Default")),
        Ok(Some(at(-5, 7, 1, Some("Default"))))
    );
}

#[test]
fn a_node_without_name_and_default_has_no_name() {
    let start = node(1, -5, 7, &[]);
    let graph = graph_of(vec![start.clone()]);
    assert_eq!(extract_gpx_waypoint_recur(&graph, &start, None), Ok(Some(at(-5, 7, 1, None))));
}

#[test]
fn a_node_that_the_graph_lacks_is_not_resolved() {
    let start = node(1, -5, 7, &[]);
    let graph = Graph::new();
    assert_eq!(extract_gpx_waypoint_recur(&graph, &start, None), Ok(None));
}

#[test]
fn a_node_takes_the_place_that_the_graph_holds_for_it() {
    let start = node(1, 0, 0, &[("name", "Mine")]);
    let graph = graph_of(vec![node(1, 30, 40, &[("name", "Theirs")])]);
    assert_eq!(
        extract_gpx_waypoint_recur(&graph, &start, None),
        Ok(Some(at(30, 40, 1, Some("Mine"))))
    );
}

#[test]
fn a_matched_entity_without_name_is_named_by_default() {
    let expression = NodeExpression::parse("k=v".to_string()).unwrap();
    let start = node(4, 100, 200, &[("k", "v")]);
    let graph = graph_of(vec![start.clone()]);
    assert!(expression.matcher(&start));
    assert_eq!(
        extract_gpx_waypoint_recur(&graph, &start, Some("Foo")),
        Ok(Some(at(100, 200, 1, Some("Foo"))))
    );
}

#[test]
fn a_way_resolved_for_itself_ends_at_the_node_listed_last() {
    let start = way(1, &[1, 2, 3], &[("name", "Field")]);
    let graph = graph_of(vec![
        node(1, 0, 0, &[]),
        node(2, 20, 20, &[]),
        node(3, 40, 10, &[]),
        start.clone(),
    ]);
    assert_eq!(
        extract_gpx_waypoint_recur(&graph, &start, None),
        Ok(Some(at(40, 10, 1, Some("Field"))))
    );
}

#[test]
fn a_way_resolved_for_itself_skips_missing_nodes_from_the_end() {
    let start = way(1, &[1, 2, 3], &[]);
    let graph = graph_of(vec![node(1, 0, 0, &[]), node(2, 20, 20, &[]), start.clone()]);
    assert_eq!(extract_gpx_waypoint_recur(&graph, &start, None), Ok(Some(at(20, 20, 1, None))));
}

#[test]
fn a_way_of_one_node_lies_at_that_node() {
    let start = way(1, &[5], &[]);
    let graph = graph_of(vec![node(5, 12, 34, &[]), start.clone()]);
    assert_eq!(extract_gpx_waypoint_recur(&graph, &start, None), Ok(Some(at(12, 34, 1, None))));
}

#[test]
fn a_way_without_known_nodes_is_not_resolved() {
    let start = way(1, &[1, 2, 3], &[]);
    let graph = graph_of(vec![start.clone()]);
    assert_eq!(extract_gpx_waypoint_recur(&graph, &start, Some("x")), Ok(None));
    let empty = way(2, &[], &[]);
    assert_eq!(extract_gpx_waypoint_recur(&graph, &empty, Some("x")), Ok(None));
}

#[test]
fn a_way_under_a_relation_resolves_to_the_mean_of_its_nodes() {
    let start = relation(1, &[EntityId::Way(1)], &[("name", "Area")]);
    let graph = graph_of(vec![
        node(1, 0, 0, &[]),
        node(2, 20, 20, &[]),
        node(3, 40, 10, &[]),
        way(1, &[1, 2, 3], &[("name", "not this")]),
        start.clone(),
    ]);
    assert_eq!(
        extract_gpx_waypoint_recur(&graph, &start, None),
        Ok(Some(at(60, 30, 3, Some("Area"))))
    );
}

#[test]
fn the_mean_leaves_missing_nodes_out() {
    let start = relation(1, &[EntityId::Way(1)], &[]);
    let graph = graph_of(vec![
        node(1, 10, -10, &[]),
        node(3, 40, -30, &[]),
        way(1, &[1, 2, 3, 4], &[]),
        start.clone(),
    ]);
    assert_eq!(extract_gpx_waypoint_recur(&graph, &start, None), Ok(Some(at(50, -40, 2, None))));
}

#[test]
fn the_mean_counts_a_node_as_often_as_it_is_listed() {
    let start = relation(1, &[EntityId::Way(1)], &[]);
    let graph = graph_of(vec![
        node(1, 10, 10, &[]),
        node(2, 20, 40, &[]),
        way(1, &[1, 2, 1], &[]),
        start.clone(),
    ]);
    assert_eq!(extract_gpx_waypoint_recur(&graph, &start, None), Ok(Some(at(40, 60, 3, None))));
}

#[test]
fn a_relation_passes_an_empty_way_and_resolves_the_next() {
    let graph_entities = vec![
        node(1, 100, 200, &[]),
        node(2, 300, 600, &[]),
        way(10, &[1, 2], &[]),
        way(20, &[7, 8], &[]),
    ];
    let first = relation(1, &[EntityId::Way(10), EntityId::Way(20)], &[]);
    let graph = graph_of(graph_entities.clone());
    assert_eq!(extract_gpx_waypoint_recur(&graph, &first, None), Ok(Some(at(400, 800, 2, None))));
    let second = relation(2, &[EntityId::Way(20), EntityId::Way(10)], &[]);
    assert_eq!(extract_gpx_waypoint_recur(&graph, &second, None), Ok(Some(at(400, 800, 2, None))));
}

#[test]
fn a_relation_resolves_the_member_listed_last_first() {
    let start = relation(
        1,
        &[EntityId::Node(1), EntityId::Way(1), EntityId::Node(2)],
        &[("name", "Group")],
    );
    let graph = graph_of(vec![
        node(1, 1, 1, &[]),
        node(2, 2, 2, &[]),
        node(3, 3, 3, &[]),
        way(1, &[3], &[]),
        start.clone(),
    ]);
    assert_eq!(
        extract_gpx_waypoint_recur(&graph, &start, None),
        Ok(Some(at(2, 2, 1, Some("Group"))))
    );
}

#[test]
fn a_relation_several_levels_deep_resolves() {
    let start = relation(1, &[EntityId::Relation(2)], &[("name", "Outer")]);
    let graph = graph_of(vec![
        node(1, 10, 30, &[]),
        node(2, 30, 50, &[]),
        way(1, &[1, 2], &[]),
        relation(2, &[EntityId::Way(1)], &[("name", "Inner")]),
        start.clone(),
    ]);
    assert_eq!(
        extract_gpx_waypoint_recur(&graph, &start, None),
        Ok(Some(at(40, 80, 2, Some("Outer"))))
    );
}

#[test]
fn a_relation_several_levels_deep_needs_one_pop_for_each_level() {
    let start = relation(1, &[EntityId::Relation(2)], &[]);
    let graph = graph_of(vec![
        node(1, 10, 30, &[]),
        way(1, &[1], &[]),
        relation(2, &[EntityId::Way(1)], &[]),
        start.clone(),
    ]);
    assert_eq!(resolve_within(&graph, &start, None, 2), Ok(Some(at(10, 30, 1, None))));
    assert_eq!(resolve_within(&graph, &start, None, 1), Err(ResolutionOverflow { ceiling: 1 }));
    assert_eq!(resolve_within(&graph, &start, None, 0), Err(ResolutionOverflow { ceiling: 0 }));
}

#[test]
fn a_relation_that_holds_itself_overflows() {
    let start = relation(1, &[EntityId::Relation(1)], &[("name", "Loop")]);
    let graph = graph_of(vec![start.clone()]);
    assert_eq!(
        extract_gpx_waypoint_recur(&graph, &start, Some("x")),
        Err(ResolutionOverflow { ceiling: 1000 })
    );
}

#[test]
fn a_chain_of_a_thousand_relations_resolves_and_one_more_overflows() {
    let mut entities = vec![node(1, 5, 6, &[])];
    entities.push(relation(1, &[EntityId::Node(1)], &[]));
    for id in 2..=1001 {
        entities.push(relation(id, &[EntityId::Relation(id - 1)], &[]));
    }
    let graph = graph_of(entities);
    let within = graph.get(EntityId::Relation(1000)).unwrap();
    assert_eq!(extract_gpx_waypoint_recur(&graph, within, None), Ok(Some(at(5, 6, 1, None))));
    let beyond = graph.get(EntityId::Relation(1001)).unwrap();
    assert_eq!(
        extract_gpx_waypoint_recur(&graph, beyond, None),
        Err(ResolutionOverflow { ceiling: 1000 })
    );
    assert_eq!(resolve_within(&graph, beyond, None, 1001), Ok(Some(at(5, 6, 1, None))));
}

#[test]
fn an_exhausted_stack_is_no_overflow_at_the_ceiling() {
    let start = relation(1, &[EntityId::Node(1), EntityId::Node(2)], &[]);
    let graph = graph_of(vec![start.clone()]);
    assert_eq!(resolve_within(&graph, &start, None, 2), Ok(None));
    assert_eq!(resolve_within(&graph, &start, None, 1), Err(ResolutionOverflow { ceiling: 1 }));
}

#[test]
fn nothing_to_look_at_is_no_overflow() {
    let start = relation(1, &[], &[]);
    let graph = Graph::new();
    assert_eq!(resolve_within(&graph, &start, None, 0), Ok(None));
}

#[test]
fn members_that_the_graph_lacks_are_passed_over() {
    let start = relation(
        1,
        &[EntityId::Node(1), EntityId::Relation(9), EntityId::Way(9), EntityId::Node(9)],
        &[],
    );
    let graph = graph_of(vec![node(1, 11, 22, &[]), start.clone()]);
    assert_eq!(extract_gpx_waypoint_recur(&graph, &start, None), Ok(Some(at(11, 22, 1, None))));
}

#[test]
fn the_nodes_of_an_empty_way_are_looked_at_again() {
    let start = relation(1, &[EntityId::Node(1), EntityId::Way(1)], &[]);
    let graph = graph_of(vec![node(1, 11, 22, &[]), way(1, &[7, 8, 9], &[]), start.clone()]);
    assert_eq!(resolve_within(&graph, &start, None, 5), Ok(Some(at(11, 22, 1, None))));
    assert_eq!(resolve_within(&graph, &start, None, 4), Err(ResolutionOverflow { ceiling: 4 }));
}

#[test]
fn the_graph_is_left_as_it_was() {
    let start = relation(1, &[EntityId::Way(1)], &[]);
    let graph = graph_of(vec![node(1, 1, 1, &[]), way(1, &[1, 2], &[]), start.clone()]);
    let before = graph.ids();
    let first = extract_gpx_waypoint_recur(&graph, &start, Some("n"));
    let second = extract_gpx_waypoint_recur(&graph, &start, Some("n"));
    assert_eq!(first, second);
    assert_eq!(graph.ids(), before);
    assert!(graph.get(EntityId::Node(2)).is_none());
}

#[test]
fn the_name_is_the_own_tag_before_the_default() {
    let named = node(1, 0, 0, &[("name", "Own")]);
    let plain = node(2, 0, 0, &[("title", "Other")]);
    assert_eq!(waypoint_name(&named, Some("Default")), Some("Own".to_string()));
    assert_eq!(waypoint_name(&named, None), Some("Own".to_string()));
    assert_eq!(waypoint_name(&plain, Some("Default")), Some("Default".to_string()));
    assert_eq!(waypoint_name(&plain, None), None);
}

#[test]
fn collect_points_keeps_the_order_and_leaves_out_what_is_missing() {
    let graph = graph_of(vec![
        node(1, 10, 11, &[]),
        node(2, 20, 21, &[]),
        node(3, 30, 31, &[]),
        way(4, &[1], &[]),
    ]);
    assert_eq!(
        collect_points(&graph, &vec![3, 4, 1, 9, 3]),
        vec![
            Point { decimicro_lon: 30, decimicro_lat: 31 },
            Point { decimicro_lon: 10, decimicro_lat: 11 },
            Point { decimicro_lon: 30, decimicro_lat: 31 },
        ]
    );
    assert_eq!(collect_points(&graph, &vec![]), Vec::<Point>::new());
}

#[test]
fn a_finished_walk_ends_alike_under_every_higher_ceiling() {
    let start = relation(1, &[EntityId::Node(1), EntityId::Way(1)], &[]);
    let graph = graph_of(vec![node(1, 11, 22, &[]), way(1, &[7, 8, 9], &[]), start.clone()]);
    let least = resolve_within(&graph, &start, None, 5);
    assert_eq!(least, Ok(Some(at(11, 22, 1, None))));
    for ceiling in [6, 7, 100, 1000, usize::MAX] {
        assert_eq!(resolve_within(&graph, &start, None, ceiling), least);
    }
}

#[test]
fn a_way_resolved_for_itself_lies_at_the_mean_where_the_last_node_does() {
    let start = way(1, &[1, 2, 3], &[]);
    let graph = graph_of(vec![
        node(1, 0, 0, &[]),
        node(2, 20, 40, &[]),
        node(3, 10, 20, &[]),
        start.clone(),
    ]);
    let mean = calculate_centroid(&collect_points(&graph, &vec![1, 2, 3])).unwrap();
    assert_eq!(mean, Centroid { lon_total: 30, lat_total: 60, count: 3 });
    let found = extract_gpx_waypoint_recur(&graph, &start, None).unwrap().unwrap();
    assert_eq!(found.coordinate, Centroid { lon_total: 10, lat_total: 20, count: 1 });
    assert_eq!(found.coordinate.lon_total * 3, mean.lon_total * 1);
    assert_eq!(found.coordinate.lat_total * 3, mean.lat_total * 1);
}

#[test]
fn builders_put_name_and_place_together() {
    let place = Centroid { lon_total: 7, lat_total: -9, count: 2 };
    assert_eq!(
        build_waypoint_from_point(Some("Here".to_string()), place),
        Waypoint { coordinate: place, name: Some("Here".to_string()) }
    );
    let spot = Node { id: 3, tags: Tags::new(), decimicro_lat: -48, decimicro_lon: 13 };
    assert_eq!(
        build_waypoint_from_node(None, &spot),
        Waypoint { coordinate: Centroid { lon_total: 13, lat_total: -48, count: 1 }, name: None }
    );
}
