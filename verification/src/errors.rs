//! Error taxonomy of the dashboard. Nothing in the engine is fatal: every
//! failure is contained to the category that produced it and surfaced as a
//! value for the interface to render.

use vstd::prelude::*;

verus! {

/// Configuration-handling failures.
#[derive(Debug)]
pub enum ConfigError {
    InvalidFile(String),
    MissingField(String),
    InvalidValue { field: String, value: String },
    ValidationFailed(String),
    BackupFailed(String),
    RestoreFailed(String),
}

/// Failures of the daemon's service unit or its control channel.
#[derive(Debug)]
pub enum ServiceError {
    NotFound,
    NotRunning,
    OperationFailed(String),
    StatusUnknown,
    CommunicationError(String),
    Timeout,
}

/// Any failure the dashboard can surface.
#[derive(Debug)]
pub enum AppError {
    Config(ConfigError),
    Service(ServiceError),
    Permission(String),
    FileSystem(String),
    Parse(String),
    Network(String),
    Fail2banClient(String),
    Terminal(String),
    Internal(String),
}

} // verus!
