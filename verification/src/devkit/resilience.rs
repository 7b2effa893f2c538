//! Resilience primitives: backoff delays, bulkhead and timeout errors, and
//! the circuit breaker state machine.
pub mod backoff;
pub mod bulkhead;
pub mod circuit_breaker;
pub mod retry;
pub mod timeout;
