//! Composable procedural generation of tile maps linked by portals.
//!
//! A dungeon is a graph of maps. Each map is a grid of tiles; one-way
//! portals lead from a tile of one map to another map, and a map can embed
//! other maps in its own coordinate space. The graph may have cycles, and a
//! portal may lead back to its own map.
//!
//! All maps of a session live in a [`MapRegistry`], which hands out a
//! [`MapId`] for each map and never takes one back. Portals and embedded
//! maps name their targets by handle, so the maps do not own one another.
//!
//! Generation is done by generators: values that implement [`DoesDunGen`]
//! and are applied to one map of a registry at a time. Some generators draw
//! tiles ([`FillTilesGenerator`], [`EmptyRoomGenerator`],
//! [`WalledRoomGenerator`]); some change the graph
//! ([`EdgePortalsGenerator`], [`ReciprocatePortalsGenerator`],
//! [`MergePortalMapsAsSubMapsGenerator`], [`SubMapGenerator`]); and some
//! wrap other generators and decide where they run
//! ([`SequentialGenerator`], [`IfMapThenGenerator`],
//! [`TraversePortalsGenerator`], [`TraverseThisAndPortalsGenerator`],
//! [`VisitMapOnceGenerator`]). A [`DunGen`] applies generators to a root
//! map one after the other.
//!
//! Every generator says in its `effect` what one application can do to the
//! registry, in terms of the mathematical content of the maps. Where a
//! generator draws at random, `effect` holds for every draw.
//!
//! The generators whose names end in `DunGen` can be applied to placed maps
//! as well, through [`DoesDunGenPlaced`] and a [`DunGenPlaced`] pipeline,
//! and some of them without an instance.

pub mod dun_gen;
pub mod dun_gen_placed;
pub mod edge_portals_dun_gen;
pub mod edge_portals_generator;
pub mod empty_room_dun_gen;
pub mod empty_room_generator;
pub mod fill_tiles_dun_gen;
pub mod fill_tiles_generator;
pub mod geometry;
pub mod if_map_dun_gen;
pub mod if_map_then_generator;
pub mod map;
pub mod merge_portal_maps_as_sub_maps_generator;
pub mod providers;
mod random;
pub mod reciprocate_portals_generator;
pub mod registry;
pub mod sequential_dun_gen;
pub mod sequential_generator;
pub mod sub_map_generator;
pub mod traverse_portals_dun_gen;
pub mod traverse_portals_generator;
pub mod traverse_this_and_portals_dun_gen;
pub mod traverse_this_and_portals_generator;
pub mod visit_map_once_generator;
pub mod walled_room_dun_gen;
pub mod walled_room_generator;

pub use dun_gen::{DoesDunGen, DoesDunGenStatic, DunGen};
pub use dun_gen_placed::{DoesDunGenPlaced, DoesDunGenPlacedStatic, DunGenPlaced};
pub use edge_portals_dun_gen::EdgePortalsDunGen;
pub use edge_portals_generator::EdgePortalsGenerator;
pub use empty_room_dun_gen::EmptyRoomDunGen;
pub use empty_room_generator::EmptyRoomGenerator;
pub use fill_tiles_dun_gen::FillTilesDunGen;
pub use fill_tiles_generator::FillTilesGenerator;
pub use if_map_dun_gen::IfMapDunGen;
pub use if_map_then_generator::IfMapThenGenerator;
pub use map::{MapId, Portal, SubMapRef, TileMap, TileType};
pub use merge_portal_maps_as_sub_maps_generator::MergePortalMapsAsSubMapsGenerator;
pub use providers::{CountRange, ProvidesCount, ProvidesPlacedShape, ProvidesPosition, SizeRange};
pub use reciprocate_portals_generator::ReciprocatePortalsGenerator;
pub use registry::MapRegistry;
pub use sequential_dun_gen::SequentialDunGen;
pub use sequential_generator::SequentialGenerator;
pub use sub_map_generator::{SubMapGenerator, SubMapGeneratorSet};
pub use traverse_portals_dun_gen::TraversePortalsDunGen;
pub use traverse_portals_generator::TraversePortalsGenerator;
pub use traverse_this_and_portals_dun_gen::TraverseThisAndPortalsDunGen;
pub use traverse_this_and_portals_generator::TraverseThisAndPortalsGenerator;
pub use visit_map_once_generator::VisitMapOnceGenerator;
pub use walled_room_dun_gen::WalledRoomDunGen;
pub use walled_room_generator::WalledRoomGenerator;
