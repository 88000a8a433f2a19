//! Core of a dynamic checker that executes a low-level program while
//! validating every memory access against a byte-precise aliasing and
//! lifetime discipline, a happens-before data-race detector and an optional
//! weak-memory emulation layer, under a deterministic seeded scheduler.

pub mod addrs;
pub mod clock;
pub mod constcache;
pub mod errors;
pub mod foreign_items;
pub mod frame;
pub mod kinds;
pub mod layouts;
pub mod machine;
pub mod monitor;
pub mod provenance;
pub mod race;
pub mod rng;
pub mod table;
pub mod threads;
pub mod vclock;
pub mod weak;

pub use kinds::{MemoryKind, MiriMemoryKind};
