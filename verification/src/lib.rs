//! Core of a terminal log viewer: classification of raw lines, a bounded
//! entry store, substring filtering, statistics and the scroll/mode state.

pub mod app;
pub mod entry;
pub mod filter;
pub mod generator;
pub mod input;
pub mod level;
pub mod model;
pub mod stats;
pub mod store;
pub mod tail;
pub mod text;
