//! Verified core of the world and presentation rules: what a terrain cell is
//! made of and what follows from it.

pub mod terrain_kind;
pub mod grass_cover;
pub mod scatter;
pub mod ring_records;
pub mod index_mesh;
pub mod census;
pub mod text;
pub mod source_rules;
pub mod animation_roles;
pub mod animation_graph;
pub mod meadow_roll;
pub mod grass_debug;
pub mod icosphere;
pub mod catalog;
pub mod cascades;
pub mod terrain_grid;
pub mod grass_plan;
pub mod terrain_mesh;
pub mod tree_visuals;
pub mod overdraw;
pub mod terrain_debug;
