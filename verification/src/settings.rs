//! Process configuration: an explicit value constructed once and passed
//! into each component's constructor. Address resolution and file loading
//! happen outside the core, which only holds the plain values.

use vstd::prelude::*;

verus! {

/// Verbosity threshold of the log output.
#[derive(Debug, Clone, Copy, PartialEq, Eq, Structural)]
pub enum Level {
    Error,
    Warn,
    Info,
    Debug,
    Trace,
}

/// Settings of the filesystem logger.
pub struct FilesystemLogger {
    pub enabled: bool,
    pub name: String,
    pub max_queue_size: u64,
    pub max_file_size: u64,
    pub history_size: u64,
    pub directory: String,
    pub flush_period_secs: u64,
}

impl Default for FilesystemLogger {
    fn default() -> (r: FilesystemLogger)
        ensures
            !r.enabled,
            r.name@ == "log"@,
            r.max_queue_size == 67108864,
            r.max_file_size == 67108864,
            r.history_size == 8,
            r.directory@ == "./log/"@,
            r.flush_period_secs == 10,
    {
        FilesystemLogger {
            enabled: false,
            name: "log".to_owned(),
            max_queue_size: 67108864,
            max_file_size: 67108864,
            history_size: 8,
            directory: "./log/".to_owned(),
            flush_period_secs: 10,
        }
    }
}

/// Settings of the log dispatcher.
pub struct Logging {
    pub level: Level,
}

impl Default for Logging {
    fn default() -> (r: Logging)
        ensures
            r.level == Level::Info,
    {
        Logging { level: Level::Info }
    }
}

/// The whole process configuration.
pub struct Settings {
    pub listen_address: String,
    pub database_address: String,
    pub workers: u16,
    pub keep_alive: u32,
    pub size_limits: Vec<(String, u64)>,
    pub logging: Logging,
    pub filesystem_logger: FilesystemLogger,
}

impl Default for Settings {
    fn default() -> (r: Settings)
        ensures
            r.listen_address@ == "0.0.0.0:80"@,
            r.database_address@ == "127.0.0.1:6380"@,
            r.workers == 16,
            r.keep_alive == 0,
            r.size_limits@.len() == 0,
            r.logging.level == Level::Info,
            !r.filesystem_logger.enabled,
    {
        Settings {
            listen_address: "0.0.0.0:80".to_owned(),
            database_address: "127.0.0.1:6380".to_owned(),
            workers: 16,
            keep_alive: 0,
            size_limits: Vec::new(),
            logging: Logging::default(),
            filesystem_logger: FilesystemLogger::default(),
        }
    }
}

/// Why a new configuration could not be put in place.
#[derive(Debug, PartialEq, Eq, Structural)]
pub enum Error {
    InvalidDatabase,
    InvalidListen,
    Poisoned,
}

} // verus!
