//! Bit sets: a growable sparse bit set, the same behind a reader-writer lock
//! for shared use, and dense bit sets over one unsigned word.
pub mod atomic_bitfield;
pub mod atomic_sparse_bitfield;
pub mod bitfield;
pub mod blocks;
pub mod data;
pub mod sparse_bitfield;
pub mod word;
