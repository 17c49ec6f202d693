//! Mutual exclusion between one managed executable and a list of forbidden processes.
//!
//! The crate holds the decisions of a watchdog: how a configuration is
//! normalised, which processes of a snapshot count, and which actions follow
//! from two successive snapshots. Taking snapshots, starting and killing
//! processes and reading files is left to the caller.

pub mod config;
pub mod engine;
pub mod names;
pub mod process;

pub use config::{
    check_config, default_observe_names, get_config_path, load_config, lowercase_config,
    normalize_config, Config, ConfigError, ExecutionConfig, LoadedConfig, ProcessConfig,
    CONFIG_FILE_NAME,
};
pub use engine::{handle_new_processes, handle_no_processes, new_process_pids, Action, Engine};
pub use names::{clone_names, dedup_names, is_observed_process, lowercase_names};
pub use process::{
    find_executable_process, get_target_process_pids, is_executable_process, is_target_process,
    ProcessEntry,
};
