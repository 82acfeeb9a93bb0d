use openads::execution::{execution_mode, RuntimeMode};
use openads::models::{get_model_params, process_config_file, ModelParams};
use openads::processing::scan_facial_presence;
use openads::store::update_storage_capacity;

fn lines(ls: &[&str]) -> Vec<String> {
    ls.iter().map(|s| s.to_string()).collect()
}

const SET_AT: u64 = 1_655_164_800;
const DAY: u64 = 86_400;

#[test]
fn execution_mode_learning_only_for_exact_text() {
    assert_eq!(execution_mode(&lines(&["LEARNING"]), SET_AT, SET_AT + DAY), RuntimeMode::Learning);
    assert_eq!(execution_mode(&lines(&["learning"]), SET_AT, SET_AT + DAY), RuntimeMode::Execution);
    assert_eq!(execution_mode(&lines(&["LEARNING "]), SET_AT, SET_AT + DAY), RuntimeMode::Execution);
    assert_eq!(execution_mode(&lines(&["EXECUTION"]), SET_AT, SET_AT + DAY), RuntimeMode::Execution);
}

#[test]
fn execution_mode_first_line_decides() {
    assert_eq!(execution_mode(&lines(&["EXECUTION", "LEARNING"]), SET_AT, SET_AT), RuntimeMode::Execution);
    assert_eq!(execution_mode(&lines(&["LEARNING", "EXECUTION"]), SET_AT, SET_AT), RuntimeMode::Learning);
}

#[test]
fn execution_mode_of_empty_file() {
    assert_eq!(execution_mode(&lines(&[]), SET_AT, SET_AT), RuntimeMode::Execution);
}

#[test]
fn learning_switches_to_execution_after_seven_days() {
    let learning = lines(&["LEARNING"]);
    assert_eq!(execution_mode(&learning, SET_AT, SET_AT + 7 * DAY - 1), RuntimeMode::Learning);
    assert_eq!(execution_mode(&learning, SET_AT, SET_AT + 7 * DAY), RuntimeMode::Execution);
    assert_eq!(execution_mode(&learning, SET_AT, SET_AT + 30 * DAY), RuntimeMode::Execution);
    assert_eq!(execution_mode(&learning, SET_AT, SET_AT - DAY), RuntimeMode::Learning);
    assert_eq!(execution_mode(&learning, u64::MAX, u64::MAX), RuntimeMode::Learning);
    assert_eq!(execution_mode(&learning, 0, u64::MAX), RuntimeMode::Execution);
}

#[test]
fn storage_capacity_from_first_setting() {
    assert_eq!(update_storage_capacity(&lines(&["# capacity in bytes", "capacity=100"])), 100);
    assert_eq!(update_storage_capacity(&lines(&["capacity=5=6"])), 5);
    assert_eq!(update_storage_capacity(&lines(&["a=+9", "b=10"])), 9);
    assert_eq!(update_storage_capacity(&lines(&["=12"])), 12);
}

#[test]
fn storage_capacity_defaults() {
    assert_eq!(update_storage_capacity(&lines(&[])), 4 << 30);
    assert_eq!(update_storage_capacity(&lines(&["#a", "#b=3"])), 4 << 30);
    assert_eq!(update_storage_capacity(&lines(&["capacity=big"])), 4 << 30);
    assert_eq!(update_storage_capacity(&lines(&["capacity="])), 4 << 30);
    assert_eq!(update_storage_capacity(&lines(&["capacity=18446744073709551616"])), 4 << 30);
}

#[test]
fn model_params_last_executor_wins() {
    let mut params = ModelParams { executor: None };
    process_config_file(&lines(&["executor=GPU", "other=1", "executor=CPU"]), &mut params);
    assert_eq!(params.executor, Some("CPU".to_string()));
}

#[test]
fn model_params_value_stops_at_next_equals() {
    let mut params = ModelParams { executor: Some("old".to_string()) };
    process_config_file(&lines(&["executor=CUDA=0"]), &mut params);
    assert_eq!(params.executor, Some("CUDA".to_string()));
}

#[test]
fn model_params_ignore_other_keys() {
    let mut params = ModelParams { executor: Some("CPU".to_string()) };
    process_config_file(&lines(&["executors=GPU", "exec=GPU", "#executor=GPU"]), &mut params);
    assert_eq!(params.executor, Some("CPU".to_string()));
}

#[test]
fn model_params_default_when_unreadable() {
    assert_eq!(get_model_params(None).executor, Some("CPU".to_string()));
    let file = lines(&["threads=4"]);
    assert_eq!(get_model_params(Some(&file)).executor, None);
    let file = lines(&["executor=GPU"]);
    assert_eq!(get_model_params(Some(&file)).executor, Some("GPU".to_string()));
}

#[test]
fn facial_scan_does_nothing_yet() {
    scan_facial_presence();
}
