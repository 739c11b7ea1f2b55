//! Configuration checks and reload bookkeeping.

pub mod hot_reload;
pub mod validation;
