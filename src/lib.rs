//! Control plane of an endpoint policy-enforcement daemon: the rule store,
//! the enforcement manager's state machine, the reconciliation between them,
//! and the wire codec of the rule types.

pub mod dbus_types;
pub mod ebpf_manager;
pub mod program_monitor;
pub mod rule_manager;
pub mod service;
pub mod types;
pub mod watchlist;
