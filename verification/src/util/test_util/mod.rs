//! A small virtual machine to exercise the collector with.
pub mod fixture_laws;
pub mod fixtures;
pub mod mock_vm;
