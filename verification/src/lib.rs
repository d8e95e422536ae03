//! Core of a small 2D tile-based game runtime: a tilemap parser with its
//! binary codec, an entity-component-system registry, and the fixed per-frame
//! pipeline of systems (time, input, camera blending, animation, terrain and
//! sprite draw preparation) stated and proved as contracts.
//!
//! Rendering, windowing, image decoding and the wall clock live outside this
//! crate; the systems here are pure transitions from plain values (elapsed
//! microseconds, input events, frame dimensions) to plain values (draw lists,
//! camera state), so every rule of the game loop is verified.

pub mod camera;
pub mod codec;
pub mod components;
pub mod ecs;
pub mod entities;
pub mod item;
pub mod services;
pub mod systems;
pub mod tilemap;
