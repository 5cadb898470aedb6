//! A registry of kitties: each has a sixteen-byte genome and exactly one owner.
//!
//! The registry hands out identifiers in order, keeps for every owner a dense
//! sequence of the kitties they own, and derives a child's genome bit by bit
//! from its two parents under a selector mask.

pub mod error;
pub mod genome;
pub mod laws;
pub mod ownership;
pub mod random;
pub mod registry;
pub mod store;
