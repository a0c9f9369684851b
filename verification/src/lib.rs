//! Verified core of a bar-based backtesting engine.
pub mod batch;
pub mod bs1;
pub mod data;
pub mod engine;
pub mod position;
pub mod recipe;
pub mod registry;
pub mod runtime;
pub mod session;
pub mod text;
