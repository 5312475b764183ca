//! A concurrent task fan-out engine: deduplicate task identifiers, run one
//! remote operation per distinct identifier, and aggregate the outcomes into
//! one result record per task.
//!
//! This crate holds the verified core: deduplication, classification of a
//! remote attempt into an outcome, and the mapping from outcomes to output
//! records. The surrounding process (argument handling, reading and writing
//! delimited text, the async runtime, the network call itself) lives outside
//! and hands this crate plain values.

pub mod digits;
pub mod engine;
pub mod records;
pub mod remote;

pub use digits::u64_to_decimal;
pub use engine::collect_records;
pub use engine::dedup_tasks;
pub use remote::HttpResult;
pub use remote::MIN_SETTLE_SECS;
pub use remote::outcome_of_http;
pub use records::ExecutionOutcome;
pub use records::InputTask;
pub use records::TaskResult;
pub use records::TaskStatus;
