//! The game's domain: map, player, monsters, time and the rules that move them.
pub mod bitpack;
pub mod item;
pub mod geometry;
pub mod block;
pub mod matter;
pub mod stat;
pub mod player;
pub mod monster;
pub mod thede;
pub mod time;
pub mod map;
pub mod event;
pub mod game;
pub mod game2;
pub mod gen;
pub mod ground;
