//! The configuration of the watchdog: its defaults and its normal form.
//!
//! A configuration names the processes to observe, the executable to manage,
//! the poll interval and the command that starts the executable. In normal
//! form the names are in lower case, no observed name repeats another, the
//! executable's name is not empty and the interval is positive.

use crate::names::{
    ascii_lowercase, clone_names, dedup_names, distinct_names, first_occurrences,
    lemma_first_occurrences,
    lemma_first_occurrences_of_distinct, listed, lowercase_names, lowered, same_name, texts,
    to_lowercase, unicode_lowercase,
};
use vstd::prelude::*;

verus! {

/// Which processes are observed and which executable is managed.
#[derive(Debug, Clone, PartialEq, Eq)]
pub struct ProcessConfig {
    /// Names of the processes whose start ends the managed executable.
    pub observe_names: Vec<String>,
    /// Name of the managed executable's process.
    pub executable_name: String,
}

/// How often to poll and how to start the managed executable.
#[derive(Debug, Clone, PartialEq, Eq)]
pub struct ExecutionConfig {
    /// Seconds between two polls.
    pub interval_seconds: u64,
    /// Command that starts the managed executable.
    pub command: String,
    /// Arguments of the command, in order.
    pub arguments: Vec<String>,
}

/// The whole configuration.
#[derive(Debug, Clone, PartialEq, Eq)]
pub struct Config {
    pub processes: ProcessConfig,
    pub execution: ExecutionConfig,
}

/// Model of a `ProcessConfig`.
pub struct ProcessConfigView {
    pub observe_names: Seq<Seq<char>>,
    pub executable_name: Seq<char>,
}

/// Model of an `ExecutionConfig`.
pub struct ExecutionConfigView {
    pub interval_seconds: nat,
    pub command: Seq<char>,
    pub arguments: Seq<Seq<char>>,
}

/// Model of a `Config`.
pub struct ConfigView {
    pub processes: ProcessConfigView,
    pub execution: ExecutionConfigView,
}

impl View for ProcessConfig {
    type V = ProcessConfigView;

    open spec fn view(&self) -> ProcessConfigView {
        ProcessConfigView {
            observe_names: texts(self.observe_names@),
            executable_name: self.executable_name@,
        }
    }
}

impl View for ExecutionConfig {
    type V = ExecutionConfigView;

    open spec fn view(&self) -> ExecutionConfigView {
        ExecutionConfigView {
            interval_seconds: self.interval_seconds as nat,
            command: self.command@,
            arguments: texts(self.arguments@),
        }
    }
}

impl View for Config {
    type V = ConfigView;

    open spec fn view(&self) -> ConfigView {
        ConfigView { processes: self.processes@, execution: self.execution@ }
    }
}

impl ConfigView {
    /// The invariant of a usable configuration: no two observed names are the
    /// same up to case, the executable has a name, and the interval is positive.
    pub open spec fn well_formed(self) -> bool {
        &&& distinct_names(self.processes.observe_names)
        &&& self.processes.executable_name.len() > 0
        &&& self.execution.interval_seconds > 0
    }
}

/// Why a configuration is refused.
#[derive(Debug, Clone, Copy, PartialEq, Eq, Structural)]
pub enum ConfigError {
    /// The managed executable has no name.
    EmptyExecutableName,
    /// The poll interval is zero.
    ZeroInterval,
}

impl ConfigError {
    /// The error in words.
    pub fn message(&self) -> (text: String)
        ensures
            text@ == match *self {
                ConfigError::EmptyExecutableName => "executable_name must not be empty"@,
                ConfigError::ZeroInterval => "interval_seconds must be greater than zero"@,
            },
    {
        match self {
            ConfigError::EmptyExecutableName => "executable_name must not be empty".to_owned(),
            ConfigError::ZeroInterval => "interval_seconds must be greater than zero".to_owned(),
        }
    }
}

/// The names observed by default.
pub open spec fn default_observe_names_view() -> Seq<Seq<char>> {
    seq!["taskmgr.exe"@, "mspaint.exe"@]
}

/// The default configuration.
pub open spec fn default_config() -> ConfigView {
    ConfigView {
        processes: ProcessConfigView {
            observe_names: default_observe_names_view(),
            executable_name: "calculatorapp.exe"@,
        },
        execution: ExecutionConfigView {
            interval_seconds: 5,
            command: "cmd"@,
            arguments: seq!["/C"@, "start"@, ""@, "C:/Windows/System32/calc.exe"@],
        },
    }
}

/// The default configuration is well formed.
pub proof fn lemma_default_config_well_formed()
    ensures
        default_config().well_formed(),
{
    reveal_strlit("taskmgr.exe");
    reveal_strlit("mspaint.exe");
    reveal_strlit("calculatorapp.exe");
    let names = default_observe_names_view();
    assert(ascii_lowercase(names[0])[0] == 't');
    assert(ascii_lowercase(names[1])[0] == 'm');
}

/// The names that are observed when no configuration is stored.
pub fn default_observe_names() -> (names: Vec<String>)
    ensures
        texts(names@) == default_observe_names_view(),
{
    let mut names: Vec<String> = Vec::new();
    names.push("taskmgr.exe".to_owned());
    names.push("mspaint.exe".to_owned());
    names
}

impl Default for Config {
    /// The configuration that is used, and stored, when none is stored yet.
    fn default() -> (config: Config)
        ensures
            config@ == default_config(),
            config@.well_formed(),
    {
        let mut arguments: Vec<String> = Vec::new();
        arguments.push("/C".to_owned());
        arguments.push("start".to_owned());
        arguments.push("".to_owned());
        arguments.push("C:/Windows/System32/calc.exe".to_owned());
        assert(texts(arguments@) =~= default_config().execution.arguments);
        proof {
            lemma_default_config_well_formed();
        }
        Config {
            processes: ProcessConfig {
                observe_names: default_observe_names(),
                executable_name: "calculatorapp.exe".to_owned(),
            },
            execution: ExecutionConfig {
                interval_seconds: 5,
                command: "cmd".to_owned(),
                arguments,
            },
        }
    }
}

/// `raw` with the observed names and the executable's name in lower case.
pub open spec fn lowercased(raw: ConfigView) -> ConfigView {
    ConfigView {
        processes: ProcessConfigView {
            observe_names: lowered(raw.processes.observe_names),
            executable_name: unicode_lowercase(raw.processes.executable_name),
        },
        execution: raw.execution,
    }
}

/// `config` without repeated observed names, or the reason why it is refused:
/// an empty executable name first, a zero interval second.
pub open spec fn checked(config: ConfigView) -> Result<ConfigView, ConfigError> {
    if config.processes.executable_name.len() == 0 {
        Err(ConfigError::EmptyExecutableName)
    } else if config.execution.interval_seconds == 0 {
        Err(ConfigError::ZeroInterval)
    } else {
        Ok(
            ConfigView {
                processes: ProcessConfigView {
                    observe_names: first_occurrences(config.processes.observe_names),
                    executable_name: config.processes.executable_name,
                },
                execution: config.execution,
            },
        )
    }
}

/// The normal form of `raw`, or the reason why `raw` has none.
pub open spec fn normalized(raw: ConfigView) -> Result<ConfigView, ConfigError> {
    checked(lowercased(raw))
}

/// The model of what a function returned that gives a configuration or refuses.
pub open spec fn outcome(result: Result<Config, ConfigError>) -> Result<ConfigView, ConfigError> {
    match result {
        Ok(config) => Ok(config@),
        Err(error) => Err(error),
    }
}

/// A copy of the execution part of a configuration.
pub fn clone_execution(execution: &ExecutionConfig) -> (copy: ExecutionConfig)
    ensures
        copy@ == execution@,
{
    ExecutionConfig {
        interval_seconds: execution.interval_seconds,
        command: execution.command.clone(),
        arguments: clone_names(execution.arguments.as_slice()),
    }
}

/// The configuration with its observed names and its executable's name in
/// lower case; the rest is copied.
pub fn lowercase_config(raw: &Config) -> (lower: Config)
    ensures
        lower@ == lowercased(raw@),
{
    Config {
        processes: ProcessConfig {
            observe_names: lowercase_names(raw.processes.observe_names.as_slice()),
            executable_name: to_lowercase(raw.processes.executable_name.as_str()),
        },
        execution: clone_execution(&raw.execution),
    }
}

/// Drops the observed names that repeat an earlier one up to case, and refuses
/// a configuration whose executable has no name or whose interval is zero.
/// What is accepted is well formed.
pub fn check_config(config: &Config) -> (result: Result<Config, ConfigError>)
    ensures
        outcome(result) == checked(config@),
        result matches Ok(accepted) ==> accepted@.well_formed(),
{
    if config.processes.executable_name.as_str().is_empty() {
        return Err(ConfigError::EmptyExecutableName);
    }
    if config.execution.interval_seconds == 0 {
        return Err(ConfigError::ZeroInterval);
    }
    Ok(
        Config {
            processes: ProcessConfig {
                observe_names: dedup_names(config.processes.observe_names.as_slice()),
                executable_name: config.processes.executable_name.clone(),
            },
            execution: clone_execution(&config.execution),
        },
    )
}

/// Brings a configuration as it was read into normal form: names in lower
/// case, repeated observed names dropped. Refuses it when the executable's
/// name is empty or the interval is zero.
pub fn normalize_config(raw: &Config) -> (result: Result<Config, ConfigError>)
    ensures
        outcome(result) == normalized(raw@),
        result matches Ok(accepted) ==> accepted@.well_formed(),
{
    let lower = lowercase_config(raw);
    check_config(&lower)
}

/// A configuration that passed `check_config` passes it again unchanged: what
/// is accepted is well formed, and a well-formed configuration is accepted as
/// it stands.
pub proof fn lemma_checked_is_idempotent(config: ConfigView)
    ensures
        checked(config) matches Ok(accepted) ==> accepted.well_formed() && checked(accepted) == Ok::<
            ConfigView,
            ConfigError,
        >(accepted),
        config.well_formed() ==> checked(config) == Ok::<ConfigView, ConfigError>(config),
{
    lemma_first_occurrences(config.processes.observe_names);
    if config.well_formed() {
        lemma_first_occurrences_of_distinct(config.processes.observe_names);
    }
    if let Ok(accepted) = checked(config) {
        lemma_first_occurrences_of_distinct(accepted.processes.observe_names);
    }
}

/// Normalising twice gives what normalising once gave, wherever putting the
/// normal form's names in lower case a second time leaves them as they are.
pub proof fn lemma_normalized_is_idempotent(raw: ConfigView, normal: ConfigView)
    requires
        normalized(raw) == Ok::<ConfigView, ConfigError>(normal),
        lowercased(normal) == normal,
    ensures
        normalized(normal) == Ok::<ConfigView, ConfigError>(normal),
{
    lemma_checked_is_idempotent(lowercased(raw));
}

/// The observed names of a normal form: each name of the raw list, in lower
/// case, is the same as exactly one of them.
pub proof fn lemma_normalized_keeps_each_name_once(raw: ConfigView, normal: ConfigView, i: int)
    requires
        normalized(raw) == Ok::<ConfigView, ConfigError>(normal),
        0 <= i < raw.processes.observe_names.len(),
    ensures
        exists|k: int|
            0 <= k < normal.processes.observe_names.len() && same_name(
                unicode_lowercase(raw.processes.observe_names[i]),
                #[trigger] normal.processes.observe_names[k],
            ) && forall|m: int|
                0 <= m < normal.processes.observe_names.len() && m != k ==> !same_name(
                    unicode_lowercase(raw.processes.observe_names[i]),
                    #[trigger] normal.processes.observe_names[m],
                ),
{
    let lower = lowered(raw.processes.observe_names);
    let kept = normal.processes.observe_names;
    let name = unicode_lowercase(raw.processes.observe_names[i]);
    lemma_first_occurrences(lower);
    assert(same_name(name, lower[i]));
    assert(listed(name, lower));
    let k = choose|k: int| 0 <= k < kept.len() && same_name(name, #[trigger] kept[k]);
    assert forall|m: int| 0 <= m < kept.len() && m != k implies !same_name(
        name,
        #[trigger] kept[m],
    ) by {
        assert(same_name(name, kept[m]) ==> same_name(kept[k], kept[m]));
    }
}

/// What loading gives: the configuration to use, and whether it was made from
/// the defaults, in which case the caller has to store it.
#[derive(Debug, Clone, PartialEq, Eq)]
pub struct LoadedConfig {
    pub config: Config,
    pub created: bool,
}

/// Model of a `LoadedConfig`.
pub struct LoadedConfigView {
    pub config: ConfigView,
    pub created: bool,
}

impl View for LoadedConfig {
    type V = LoadedConfigView;

    open spec fn view(&self) -> LoadedConfigView {
        LoadedConfigView { config: self.config@, created: self.created }
    }
}

/// The configuration to use, given what is stored: the defaults, to be stored,
/// when nothing is; the normal form of what is stored otherwise.
pub open spec fn loaded(stored: Option<ConfigView>) -> Result<LoadedConfigView, ConfigError> {
    match stored {
        None => Ok(LoadedConfigView { config: default_config(), created: true }),
        Some(raw) => match normalized(raw) {
            Ok(normal) => Ok(LoadedConfigView { config: normal, created: false }),
            Err(error) => Err(error),
        },
    }
}

/// The model of a stored configuration that was read, if one was.
pub open spec fn stored_view(stored: Option<&Config>) -> Option<ConfigView> {
    match stored {
        Some(raw) => Some(raw@),
        None => None,
    }
}

/// The model of what loading returned.
pub open spec fn load_outcome(result: Result<LoadedConfig, ConfigError>) -> Result<
    LoadedConfigView,
    ConfigError,
> {
    match result {
        Ok(found) => Ok(found@),
        Err(error) => Err(error),
    }
}

/// Decides on the configuration to use. `stored` is the configuration as it
/// was read, or `None` when none is stored. Without a stored configuration the
/// defaults are used and marked as created; a stored one is normalised, and
/// refused when it has no normal form.
pub fn load_config(stored: Option<&Config>) -> (result: Result<LoadedConfig, ConfigError>)
    ensures
        load_outcome(result) == loaded(stored_view(stored)),
        result matches Ok(found) ==> found.config@.well_formed(),
{
    match stored {
        None => Ok(LoadedConfig { config: Config::default(), created: true }),
        Some(raw) => match normalize_config(raw) {
            Ok(config) => Ok(LoadedConfig { config, created: false }),
            Err(error) => Err(error),
        },
    }
}

/// Name of the configuration file.
pub const CONFIG_FILE_NAME: &'static str = "config.toml";

/// Where the configuration is: in the file beside the running binary when
/// there is one, else in the file of that name in the working directory.
/// `beside_executable` is the path of the existing file beside the binary.
pub fn get_config_path(beside_executable: Option<String>) -> (path: String)
    ensures
        path@ == match beside_executable {
            Some(found) => found@,
            None => CONFIG_FILE_NAME@,
        },
{
    match beside_executable {
        Some(found) => found,
        None => CONFIG_FILE_NAME.to_owned(),
    }
}

} // verus!
