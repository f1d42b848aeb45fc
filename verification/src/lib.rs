//! Sets over a conceptually infinite universe of `u64` values.
//!
//! The central type, [`btree::InfBTreeSet`], represents either a finite
//! collection of members (a union of elements) or the complement of a
//! finite collection (everything except the listed elements), and closes
//! the boolean algebra of union and intersection over both forms.

pub mod btree;
pub mod convert;
pub mod model;
mod storage;
