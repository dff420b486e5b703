//! A verified watch manager for directory trees.
//!
//! The library owns watch lifecycles, coalesces raw filesystem events into
//! debounced change notifications, filters them by a path suffix, and hands
//! the result to whatever surrounds it.  The surrounding program supplies the
//! raw event source and performs the actual filesystem work; everything that
//! decides — registry bookkeeping, debouncing, filtering, configuration
//! updates — lives here and carries a contract.

pub mod config;
pub mod engine;
pub mod filter;
pub mod listing;
pub mod registry;
