//! Logging: where the log files live, which configuration is used, and when
//! a log file is rotated.

pub mod config;
pub mod rotation;

use vstd::prelude::*;

pub use config::{FilePathsConfig, GeneralConfig, LoggingConfig};
pub use rotation::SizeLimitedAppender;

verus! {

/// The configuration that logging is set up with: the one that was read
/// from the configuration file where a file was named, else the default.
pub fn setup_logger(from_file: Option<LoggingConfig>) -> (config: LoggingConfig)
    ensures
        config@ == (match from_file {
            Some(read) => read@,
            None => config::default_config(),
        }),
{
    match from_file {
        Some(read) => read,
        None => LoggingConfig::default(),
    }
}

} // verus!
