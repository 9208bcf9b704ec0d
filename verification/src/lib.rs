//! Tools for inspecting nodes of a compute grid: the timeline of state
//! changes of a node, derived from the uptime reports it sent, and what the
//! chain records about contracts, their bills and their network traffic.

pub mod bill_report;
pub mod compat;
pub mod consumption;
pub mod contract;
pub mod decimal;
pub mod graphql;
pub mod time;
pub mod units;
pub mod uptime;
