//! An in-process module-health and synergy coordinator.
//!
//! The library tracks named subsystems ("modules") of a host application,
//! records their activity and errors, keeps a weighted undirected graph of
//! relationships between them, and produces audits that classify each
//! module's health.  A reinforcement layer turns audits into recommendation
//! strings and can re-attach disconnected modules to a hub module.
//!
//! All quantities that are conceptually real numbers (connection strengths,
//! synergy scores, cognitive load, response times) are kept in fixed-point
//! micro-units: the integer 1_000_000 stands for 1.0.  Durations and
//! timestamps are integer milliseconds.

mod clock;
pub mod audit;
pub mod coordinator;
pub mod laws;
pub mod matrix;
pub mod metrics;
pub mod names;
pub mod num;
pub mod registry;
pub mod reinforce;
pub mod report;
