//! Game domain, geometry and entity bookkeeping for the thedes game.
pub mod geometry;
pub mod entity;
pub mod domain;
pub mod gen;
pub mod ecs;
pub mod ratio;
