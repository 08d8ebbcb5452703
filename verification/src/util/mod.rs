//! Addresses, metadata tables and the other building blocks shared by the policies.
pub mod address;
pub mod allocation;
pub mod constants;
pub mod conversions;
pub mod debug_util;
pub mod heap;
pub mod metadata;
pub mod object_forwarding;
pub mod options;
pub mod rc;
pub mod reference_laws;
pub mod reference_model;
pub mod reference_outcome_laws;
pub mod reference_processor;
pub mod reference_processors;
pub mod reference_work;
pub mod reference_work_laws;
pub mod rounding;
pub mod share_laws;
pub mod statistics;
pub mod table_laws;
pub mod test_util;
