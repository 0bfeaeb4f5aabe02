//! Dual-store coordination core: a structured record store paired with a
//! semantic vector index, and a work router that dispatches intents to
//! registered workers.

pub mod behavioral;
pub mod research;
pub mod ids;
pub mod coordination;
pub mod storage;
pub mod framework;
