use osm_gpx::entity::{Entity, EntityId, Node, Relation, Way};
use osm_gpx::graph::Graph;
use osm_gpx::tags::Tags;

fn node(id: i64, lon: i32, lat: i32) -> Entity {
    Entity::Node(Node { id, tags: Tags::new(), decimicro_lat: lat, decimicro_lon: lon })
}

fn way(id: i64, nodes: &[i64]) -> Entity {
    Entity::Way(Way { id, tags: Tags::new(), nodes: nodes.to_vec() })
}

fn relation(id: i64, refs: &[EntityId]) -> Entity {
    Entity::Relation(Relation { id, tags: Tags::new(), refs: refs.to_vec() })
}

#[test]
fn a_new_graph_holds_nothing() {
    let graph = Graph::new();
    assert!(graph.get(EntityId::Node(1)).is_none());
    assert!(graph.ids().is_empty());
}

#[test]
fn an_entity_is_found_under_its_own_identifier() {
    let mut graph = Graph::new();
    graph.insert(node(7, 10, 20));
    let found = graph.get(EntityId::Node(7)).unwrap();
    assert_eq!(found.id(), EntityId::Node(7));
    assert!(graph.get(EntityId::Node(8)).is_none());
}

#[test]
fn a_number_names_one_entity_of_each_kind() {
    let mut graph = Graph::new();
    graph.insert(node(1, 10, 20));
    graph.insert(way(1, &[1]));
    graph.insert(relation(1, &[EntityId::Way(1)]));
    assert!(matches!(graph.get(EntityId::Node(1)), Some(Entity::Node(_))));
    assert!(matches!(graph.get(EntityId::Way(1)), Some(Entity::Way(_))));
    assert!(matches!(graph.get(EntityId::Relation(1)), Some(Entity::Relation(_))));
    assert_eq!(graph.ids().len(), 3);
}

#[test]
fn insert_replaces_the_entity_of_an_identifier() {
    let mut graph = Graph::new();
    graph.insert(node(1, 10, 20));
    graph.insert(node(1, 30, 40));
    match graph.get(EntityId::Node(1)) {
        Some(Entity::Node(found)) => {
            assert_eq!(found.decimicro_lon, 30);
            assert_eq!(found.decimicro_lat, 40);
        }
        other => panic!("not a node: {:?}", other),
    }
    assert_eq!(graph.ids(), vec![EntityId::Node(1)]);
}

#[test]
fn ids_list_nodes_then_ways_then_relations_by_number() {
    let mut graph = Graph::new();
    graph.insert(relation(2, &[]));
    graph.insert(way(5, &[]));
    graph.insert(node(9, 0, 0));
    graph.insert(relation(-1, &[]));
    graph.insert(node(-3, 0, 0));
    graph.insert(way(4, &[]));
    assert_eq!(
        graph.ids(),
        vec![
            EntityId::Node(-3),
            EntityId::Node(9),
            EntityId::Way(4),
            EntityId::Way(5),
            EntityId::Relation(-1),
            EntityId::Relation(2),
        ]
    );
}

#[test]
fn dependencies_of_each_kind() {
    assert_eq!(node(3, 0, 0).dependencies(), vec![EntityId::Node(3)]);
    assert_eq!(
        way(1, &[4, 5, 4]).dependencies(),
        vec![EntityId::Node(4), EntityId::Node(5), EntityId::Node(4)]
    );
    let members = [EntityId::Way(1), EntityId::Relation(2), EntityId::Node(3)];
    assert_eq!(relation(9, &members).dependencies(), members.to_vec());
    assert_eq!(way(1, &[]).dependencies(), Vec::<EntityId>::new());
}
