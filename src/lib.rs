//! A retained-mode UI scene: an entity/component store whose per-frame render
//! set excludes entities that carry a suppression marker, together with the
//! input-driven state machine that mutates the scene at runtime.
pub mod asset;
pub mod scene;
pub mod input;
pub mod game;

