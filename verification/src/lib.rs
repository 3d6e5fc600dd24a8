//! Core logic of the Starsector mod manager: a fixed-capacity set, game and
//! mod version handling, JVM parameter files, Java runtime selection, the
//! navigation tree, mod list filtering and sorting, installation decisions,
//! the mod repository listing, launching the game, and table geometry.

pub mod array_set;
pub mod text;
pub mod patterns;
pub mod version;
pub mod mod_version;
pub mod vmparams;
pub mod jre;
pub mod jre_upgrade;
pub mod nav;
pub mod mod_list;
pub mod list_state;
pub mod sorting;
pub mod grid;
pub mod repo;
pub mod settings;
pub mod util;
pub mod state;
pub mod params_round_trip;
pub mod flag_round_trip;
pub mod launch;
pub mod install;
pub mod filters;
pub mod repo_order;
pub mod game_version;
