//! Server-authoritative game rules for Triskelion: the Duelist traversal
//! grid, the Tank/Healer bonus cube, the Physical arc streak counters,
//! stance and mitigation-streak bookkeeping, and the instance registry.
//!
//! Quantities that the game measures in floating point (commit qualities,
//! bonus magnitudes, animation timers) are carried through this crate as a
//! generic `Copy + Default` scalar `F`; the rules here never inspect such a
//! value, so they hold for every choice of `F`.

pub mod scalar;
pub mod channels;
pub mod player;
pub mod minigame;
pub mod combat;
pub mod damage;
pub mod chat;
pub mod instances;
pub mod mob_ai;
pub mod rng;
