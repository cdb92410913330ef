//! Core of a terminal tile adventure: a chunked, lazily generated world map,
//! a ray-cast field-of-view engine, entities with stats, equipment and
//! experience, and a single movement/attack resolution path shared by player
//! input and AI, plus a cooldown-gated random spawner.
//!
//! Every function here carries a contract checked by Verus. Rendering, input
//! polling and terminal handling are external collaborators: the library
//! hands them plain values (glyphs, colors, screen coordinates, log lines)
//! and takes abstract commands back.

use vstd::prelude::*;

pub mod action;
pub mod camera;
pub mod color;
pub mod controller;
pub mod coords;
pub mod entity;
pub mod item;
pub mod level;
pub mod logger;
pub mod manager;
pub mod map;
pub mod spawner;
pub mod stats;
pub mod structure;
pub mod text;
pub mod tile;

verus! {

} // verus!
