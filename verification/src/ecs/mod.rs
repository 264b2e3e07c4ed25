//! A small entity component system: entities that hold values of components,
//! and systems that update those values each tick.
pub mod error;
pub mod table;
pub mod names;
pub mod value;
pub mod entity;
pub mod component;
pub mod system;
pub mod world;
