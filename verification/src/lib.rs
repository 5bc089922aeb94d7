//! Sandwich search and bundle planning for the FOUR.MEME bonding-curve launchpad.
pub mod uint;
pub mod primitives;
pub mod meme;
pub mod search;
pub mod tx_cache;
pub mod strategy;
