//! Rotation engine for desktop wallpapers.
//!
//! The crate decides *when* a new wallpaper is due (fixed-width buckets of
//! the local day), *which* one comes next (every known item once per cycle,
//! in random order) and *what to do* when the platform backend refuses it
//! (a bounded number of delayed retries).
//!
//! Every function carries a contract, and Verus proves it from the function's
//! body. The exceptions are a handful of private functions that call into
//! `chrono`, `rand` and the standard library: their contracts are taken on
//! trust, and each says in its comment what it claims of the function it
//! calls.

pub mod backends;
pub mod config;
pub mod content_managers;
pub mod cycle;
pub mod random;
pub mod retry;
pub mod schedule;
pub mod store;
pub mod text;
pub mod wallpaper;
