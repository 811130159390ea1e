//! The core of an uptime monitor: a registry of monitored sites, the
//! classification of probe results, and the bookkeeping of check histories.

pub mod email_config;
pub mod monitor;
pub mod notify;
pub mod probe;
pub mod schedule;
pub mod website;
