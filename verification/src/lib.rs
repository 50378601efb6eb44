//! Bookkeeping layer of a smart-contract execution engine: after a
//! transaction's validation, execution, and fee-transfer phases each produce a
//! tree of contract-call records, this library folds those trees into a single
//! deterministic summary used downstream for fee billing, cross-layer message
//! batching, and event indexing.

pub mod builders;
pub mod call_info;
pub mod communication;
pub mod dedup;
pub mod objects;
