//! Deterministic simulation core of a small 2D arcade shooter.
//!
//! The crate holds an entity/component store with generation-tagged handles,
//! a seeded pseudo-random generator, a broad-phase collision pass, a deferred
//! event queue and the orchestrator that steps all of them once per tick.
//! Every tick is a function of the state it starts from, so two worlds that
//! start equal and see the same inputs stay equal. Arithmetic on positions,
//! timers, counters and generations wraps around, so no tick fails on a
//! number; what can stop a tick (an exhausted index space, an event that
//! names a kind, an input slot or a row that does not exist) is reported as
//! a [`world::Fatal`].
#![allow(non_snake_case)]
#![allow(non_upper_case_globals)]
#![allow(non_camel_case_types)]
#![allow(unused_imports)]

pub mod vector;
pub mod entity;
pub mod components;
pub mod rng;
pub mod index_table;
pub mod store;
pub mod event;
pub mod input;
pub mod bounds;
pub mod data;
pub mod world;
pub mod systems;
pub mod animation;
pub mod game;
pub mod laws;
pub mod integrity;
pub mod render;
