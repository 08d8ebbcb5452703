//! What is measured of collections.
pub mod counter;
