use process_guard::{
    check_config, default_observe_names, get_config_path, load_config, lowercase_config,
    normalize_config, Config, ConfigError, ExecutionConfig, ProcessConfig, CONFIG_FILE_NAME,
};

fn strings(items: &[&str]) -> Vec<String> {
    items.iter().map(|item| item.to_string()).collect()
}

fn config(observe: &[&str], executable: &str, interval: u64) -> Config {
    Config {
        processes: ProcessConfig {
            observe_names: strings(observe),
            executable_name: executable.to_string(),
        },
        execution: ExecutionConfig {
            interval_seconds: interval,
            command: "Cmd".to_string(),
            arguments: strings(&["/C", "Start", "", "C:/Tools/Run.exe"]),
        },
    }
}

#[test]
fn default_observe_names_are_the_documented_ones() {
    assert_eq!(default_observe_names(), strings(&["taskmgr.exe", "mspaint.exe"]));
}

#[test]
fn default_config_has_the_documented_values() {
    let defaults = Config::default();
    assert_eq!(defaults.processes.observe_names, strings(&["taskmgr.exe", "mspaint.exe"]));
    assert_eq!(defaults.processes.executable_name, "calculatorapp.exe");
    assert_eq!(defaults.execution.interval_seconds, 5);
    assert_eq!(defaults.execution.command, "cmd");
    assert_eq!(
        defaults.execution.arguments,
        strings(&["/C", "start", "", "C:/Windows/System32/calc.exe"])
    );
}

#[test]
fn default_config_is_in_normal_form() {
    let defaults = Config::default();
    assert_eq!(normalize_config(&defaults), Ok(defaults.clone()));
    assert_eq!(check_config(&defaults), Ok(defaults));
}

#[test]
fn normalization_collapses_case_variants() {
    let raw = config(&["A.EXE", "a.exe"], "b.exe", 5);
    let normal = normalize_config(&raw).unwrap();
    assert_eq!(normal.processes.observe_names, strings(&["a.exe"]));
}

#[test]
fn normalization_collapses_case_variants_in_either_order() {
    let raw = config(&["a.exe", "A.EXE"], "b.exe", 5);
    let normal = normalize_config(&raw).unwrap();
    assert_eq!(normal.processes.observe_names, strings(&["a.exe"]));
}

#[test]
fn normalization_lowers_the_executable_name() {
    let raw = config(&["a.exe"], "CalculatorApp.EXE", 5);
    let normal = normalize_config(&raw).unwrap();
    assert_eq!(normal.processes.executable_name, "calculatorapp.exe");
}

#[test]
fn normalization_lowers_and_keeps_first_occurrences() {
    let raw = config(&["TaskMgr.exe", "MSPAINT.EXE", "taskmgr.EXE", "Notepad.exe", "mspaint.exe"], "b.exe", 5);
    let normal = normalize_config(&raw).unwrap();
    assert_eq!(
        normal.processes.observe_names,
        strings(&["taskmgr.exe", "mspaint.exe", "notepad.exe"])
    );
}

#[test]
fn normalization_leaves_the_execution_part_as_it_is() {
    let raw = config(&["A.EXE"], "B.EXE", 7);
    let normal = normalize_config(&raw).unwrap();
    assert_eq!(normal.execution, raw.execution);
    assert_eq!(normal.execution.command, "Cmd");
    assert_eq!(normal.execution.arguments, strings(&["/C", "Start", "", "C:/Tools/Run.exe"]));
    assert_eq!(normal.execution.interval_seconds, 7);
}

#[test]
fn normalization_is_idempotent() {
    let raw = config(&["A.EXE", "a.exe", "C.exe"], "B.EXE", 5);
    let once = normalize_config(&raw).unwrap();
    let twice = normalize_config(&once).unwrap();
    assert_eq!(once, twice);
}

#[test]
fn normalization_accepts_an_empty_watch_list() {
    let raw = config(&[], "B.EXE", 1);
    let normal = normalize_config(&raw).unwrap();
    assert_eq!(normal.processes.observe_names, Vec::<String>::new());
    assert_eq!(normal.processes.executable_name, "b.exe");
}

#[test]
fn normalization_refuses_an_empty_executable_name() {
    let raw = config(&["a.exe"], "", 5);
    assert_eq!(normalize_config(&raw), Err(ConfigError::EmptyExecutableName));
}

#[test]
fn normalization_refuses_a_zero_interval() {
    let raw = config(&["a.exe"], "b.exe", 0);
    assert_eq!(normalize_config(&raw), Err(ConfigError::ZeroInterval));
}

#[test]
fn an_empty_executable_name_is_reported_before_a_zero_interval() {
    let raw = config(&["a.exe"], "", 0);
    assert_eq!(normalize_config(&raw), Err(ConfigError::EmptyExecutableName));
    assert_eq!(check_config(&raw), Err(ConfigError::EmptyExecutableName));
}

#[test]
fn the_largest_interval_is_accepted() {
    let raw = config(&["a.exe"], "b.exe", u64::MAX);
    assert_eq!(normalize_config(&raw).unwrap().execution.interval_seconds, u64::MAX);
}

#[test]
fn lowercase_config_lowers_names_and_nothing_else() {
    let raw = config(&["A.EXE", "a.exe"], "B.EXE", 0);
    let lower = lowercase_config(&raw);
    assert_eq!(lower.processes.observe_names, strings(&["a.exe", "a.exe"]));
    assert_eq!(lower.processes.executable_name, "b.exe");
    assert_eq!(lower.execution, raw.execution);
}

#[test]
fn check_config_drops_repetitions_without_changing_case() {
    let mixed = config(&["A.EXE", "a.exe", "B.exe"], "Run.EXE", 3);
    let accepted = check_config(&mixed).unwrap();
    assert_eq!(accepted.processes.observe_names, strings(&["A.EXE", "B.exe"]));
    assert_eq!(accepted.processes.executable_name, "Run.EXE");
    assert_eq!(accepted.execution, mixed.execution);
}

#[test]
fn check_config_accepts_what_it_accepted() {
    let mixed = config(&["A.EXE", "a.exe", "B.exe"], "Run.EXE", 3);
    let accepted = check_config(&mixed).unwrap();
    assert_eq!(check_config(&accepted), Ok(accepted));
}

#[test]
fn check_config_refuses_a_zero_interval() {
    assert_eq!(check_config(&config(&[], "b.exe", 0)), Err(ConfigError::ZeroInterval));
}

#[test]
fn loading_without_a_stored_configuration_creates_the_defaults() {
    let found = load_config(None).unwrap();
    assert!(found.created);
    assert_eq!(found.config, Config::default());
}

#[test]
fn loading_a_stored_configuration_normalizes_it() {
    let raw = config(&["A.EXE", "a.exe"], "B.EXE", 9);
    let found = load_config(Some(&raw)).unwrap();
    assert!(!found.created);
    assert_eq!(found.config.processes.observe_names, strings(&["a.exe"]));
    assert_eq!(found.config.processes.executable_name, "b.exe");
    assert_eq!(found.config.execution, raw.execution);
}

#[test]
fn loading_a_refused_configuration_fails() {
    assert_eq!(load_config(Some(&config(&["a.exe"], "b.exe", 0))), Err(ConfigError::ZeroInterval));
    assert_eq!(
        load_config(Some(&config(&["a.exe"], "", 4))),
        Err(ConfigError::EmptyExecutableName)
    );
}

#[test]
fn config_path_prefers_the_file_beside_the_binary() {
    assert_eq!(get_config_path(Some("/opt/guard/config.toml".to_string())), "/opt/guard/config.toml");
}

#[test]
fn config_path_falls_back_to_the_working_directory() {
    assert_eq!(get_config_path(None), "config.toml");
    assert_eq!(CONFIG_FILE_NAME, "config.toml");
}

#[test]
fn config_errors_have_their_messages() {
    assert_eq!(ConfigError::EmptyExecutableName.message(), "executable_name must not be empty");
    assert_eq!(ConfigError::ZeroInterval.message(), "interval_seconds must be greater than zero");
}
