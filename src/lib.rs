//! A keyed journal store whose record addresses are derived from a title and
//! the owner's key, so that only the owner can name its records.

pub mod address;
pub mod lifecycle;
pub mod store;
