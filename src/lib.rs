//! Validation and integration pipeline for DHT operations: the operation model and its
//! canonical encoding, decomposition of source-chain elements into operations, the
//! system-validation checks and outcome rules, the operation table with its limbo stages,
//! the ordered integration queue, and the producer, sys-validation and integration steps.
pub mod hash;
pub mod types;
pub mod encode;
pub mod ops;
pub mod store;
pub mod validation;
pub mod sys_validation;
pub mod queue;
pub mod produce;
pub mod workflow;
