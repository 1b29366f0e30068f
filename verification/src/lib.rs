//! Core logic of a turn-based dungeon crawler: character model, bounded
//! inventory, combat resolution, special-attack effects, procedural level
//! generation, monster behaviour and the top-level game state machine.
//!
//! Rendering and keyboard handling are outside collaborators; the library
//! consumes abstract commands and hands back plain data to draw.

pub mod stats;
pub mod item;
pub mod backpack;
pub mod entity;
pub mod monster;
pub mod log;
pub mod text;
pub mod fight;
pub mod level;
pub mod effect;
pub mod weapon_attack;
pub mod ki;
pub mod game;
pub mod gen_item;
pub mod gen_monster;
pub mod level_gen;
