//! Waypoints from tagged map entities.
//!
//! A tag expression selects entities of a graph of nodes, ways and relations;
//! each selected entity is resolved to one position by walking what it refers
//! to, until a node of the graph or a way with known nodes is reached.

pub mod entity;
pub mod expression;
pub mod graph;
pub mod lemmas;
pub mod resolve;
pub mod scan;
pub mod tags;
pub mod text;
pub mod waypoint;
