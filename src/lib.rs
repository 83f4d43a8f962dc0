//! Supervisor for a live tail session: one-shot cancellation signals, the
//! interrupt fan-out that fires them, and the coordinator that starts the
//! session's units and reduces their outcomes to a single result.
pub mod delivery;
pub mod session;
pub mod signal;
