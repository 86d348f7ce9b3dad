//! Building blocks for long-running services: a shutdown coordinator that
//! owns one process-wide cancellation signal and the tasks that observe it,
//! the lifecycle of a supervised actor as a state machine, and the load and
//! commit rules of a disk-backed cached value.
pub mod shutdown;
pub mod actor;
pub mod store;
