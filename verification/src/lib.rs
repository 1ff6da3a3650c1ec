//! Two small append-mostly record stores.
//!
//! The sheaf registry keeps an ordered list of blockchain public-address
//! records tagged with one of 88 logical slots, together with an append-only
//! log of numbered sessions. The identity registry maps deterministically
//! derived unified ids to identity records carrying per-platform boolean
//! flags. Every operation is a single validated mutation or a pure read over
//! an explicitly constructed store value.

pub mod assoc;
pub mod decimal;
pub mod flags;
pub mod identity;
pub mod sheaf;
