//! Resolution of instruction addresses into symbol information, over the
//! code images loaded into a process.
//!
//! The library holds the verified core: the inventory of loaded images, the
//! translation of a runtime address into an image's own coordinates, the
//! bounded most-recently-used cache of parsed per-image contexts, and the
//! orchestration of frame lookup with its symbol-table fallback.

pub mod library;
pub mod cache;
pub mod symbol;
pub mod symbolize;
pub mod resolve;
pub mod inventory;
