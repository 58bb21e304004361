//! Payment orchestration core: the lifecycle state machine of payments, a
//! connector adapter, the routing engine that orders candidate connectors,
//! the execution pipeline that drives attempts across them, reconciliation of
//! connector webhooks, and the coordinator that drains admission when a
//! critical dependency fails.

pub mod adapter;
pub mod lifecycle;
pub mod payment;
pub mod routing;
pub mod shutdown;
pub mod store;
pub mod webhook;
