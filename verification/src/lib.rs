//! Verified core logic of a first-person maze explorer: maze carving and
//! the world's chunks, union-find, the pause menu, the settings file, the
//! creatures' and weapons' timed decisions, the window icon and seeds.

pub mod disjoint_set;
pub mod menu_types;
pub mod text;
pub mod bindings;
pub mod settings;
pub mod settings_laws;
pub mod settings_words;
pub mod menu_state;
pub mod menu_main;
pub mod menu_controls;
pub mod menu_graphics;
pub mod menu_seed;
pub mod menu_input;
pub mod menu_view;
pub mod window_mode;
pub mod overlay;
pub mod graph;
pub mod grid;
pub mod rng;
pub mod rect_maze;
pub mod kruskal;
pub mod circular_maze;
pub mod hex_maze;
pub mod chunk;
pub mod weapons;
pub mod entity_kind;
pub mod icon;
pub mod seed_gen;
pub mod brains;
pub mod session;
pub mod menu_hud;
