//! The configuration of logging.

use vstd::prelude::*;
use crate::text::owned;

verus! {

/// General settings.
#[derive(Debug)]
pub struct GeneralConfig {
    /// Whether log lines also go to the console.
    pub console_output: bool,
}

/// The path of the log file of each level.
#[derive(Debug)]
pub struct FilePathsConfig {
    pub info: String,
    pub error: String,
    pub debug: String,
    pub trace: String,
}

/// The configuration of logging.
#[derive(Debug)]
pub struct LoggingConfig {
    pub general: GeneralConfig,
    pub files: FilePathsConfig,
}

/// A `LoggingConfig` as plain values.
pub struct LoggingConfigView {
    pub console_output: bool,
    pub info: Seq<char>,
    pub error: Seq<char>,
    pub debug: Seq<char>,
    pub trace: Seq<char>,
}

impl View for LoggingConfig {
    type V = LoggingConfigView;

    open spec fn view(&self) -> LoggingConfigView {
        LoggingConfigView {
            console_output: self.general.console_output,
            info: self.files.info@,
            error: self.files.error@,
            debug: self.files.debug@,
            trace: self.files.trace@,
        }
    }
}

/// The default configuration: console output, and one file for each level
/// under `./logs`.
pub open spec fn default_config() -> LoggingConfigView {
    LoggingConfigView {
        console_output: true,
        info: "./logs/info.log"@,
        error: "./logs/error.log"@,
        debug: "./logs/debug.log"@,
        trace: "./logs/trace.log"@,
    }
}

impl LoggingConfig {
    /// The default configuration.
    pub fn default() -> (config: Self)
        ensures
            config@ == default_config(),
    {
        LoggingConfig {
            general: GeneralConfig { console_output: true },
            files: FilePathsConfig {
                info: owned("./logs/info.log"),
                error: owned("./logs/error.log"),
                debug: owned("./logs/debug.log"),
                trace: owned("./logs/trace.log"),
            },
        }
    }

    /// The paths of the four log files, in the order info, error, debug,
    /// trace: the files whose directories must exist before logging starts.
    pub fn log_files(&self) -> (paths: Vec<String>)
        ensures
            paths@.len() == 4,
            paths@[0]@ == self@.info,
            paths@[1]@ == self@.error,
            paths@[2]@ == self@.debug,
            paths@[3]@ == self@.trace,
    {
        let mut paths: Vec<String> = Vec::new();
        paths.push(self.files.info.clone());
        paths.push(self.files.error.clone());
        paths.push(self.files.debug.clone());
        paths.push(self.files.trace.clone());
        paths
    }
}

} // verus!
