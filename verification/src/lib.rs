//! A growable, bounds-checked list of fixed-size records packed into an
//! externally owned byte buffer.
//!
//! The buffer starts with an 8-byte discriminator tag; the record region
//! follows with no padding. The list metadata carries a cached record
//! count and a two-phase migration guard that blocks structural mutation
//! while the contents are being relocated to a differently sized buffer.

pub mod error;
pub mod laws;
pub mod layout;
pub mod list;
