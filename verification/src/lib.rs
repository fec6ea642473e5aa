//! A small entity-component-system storage engine: sparse-set component
//! storage, presence-masked stores, a component-identity registry, and a
//! query join over presence masks.

pub mod app;
pub mod component;
pub mod default_plugins;
pub mod ecs;
pub mod join;
pub mod masked;
pub mod plugins;
pub mod storage;
pub mod window;
pub mod world;
