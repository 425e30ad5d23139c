//! Schema migration management for a user datastore: a registry of versioned, reversible
//! migrations and the decision logic that applies or rolls them back one step at a time,
//! together with the validation rules and message types of the surrounding user service.

pub mod anomaly_detection;
pub mod db;
pub mod engine;
pub mod migrations;
pub mod proto;
pub mod sanitizer;
pub mod schema;
pub mod security;
pub mod service;
pub mod text;

pub use anomaly_detection::{MetricsWindow, QueryMetrics};
pub use db::DatabaseConfig;
pub use engine::{Direction, MigrationRun, Phase, RunAction, StepOutcome};
pub use migrations::{Migration, MigrationError, MigrationManager, MigrationResult};
pub use sanitizer::Sanitizer;
pub use security::{SecurityError, SecurityManager};
