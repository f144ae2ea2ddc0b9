//! Service settings, read from `ferox.toml` by the application.
use vstd::prelude::*;

verus! {

/// How much the service logs.
#[derive(Debug)]
pub enum LogLevel {
    /// Everything, including diagnostics.
    Debug,
    /// Normal operation.
    Info,
    /// Unexpected but handled conditions.
    Warning,
    /// Failures only.
    Error,
}

/// The service's settings.
#[derive(Debug)]
pub struct Settings {
    /// The name the service reports.
    pub service_name: String,
    /// How much the service logs.
    pub log_level: LogLevel,
}

impl Default for Settings {
    /// The settings written to a new settings file: the name `Ferox`, logging at debug level.
    fn default() -> (settings: Settings)
        ensures
            settings.service_name@ == "Ferox"@,
            settings.log_level == LogLevel::Debug,
    {
        Settings { service_name: "Ferox".to_owned(), log_level: LogLevel::Debug }
    }
}

} // verus!
