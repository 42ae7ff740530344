//! Verified core of a Stream Deck plugin that drives vMix over its TCP API.

pub mod text;
pub mod numbering;
pub mod kind;
pub mod render;
pub mod config;
pub mod status;
pub mod cache;
pub mod pool;
pub mod url;
pub mod contracts;
pub mod ops;
pub mod state;
