use yurf_task::Task;
use yurf_task::TaskConfig;
use yurf_task::TaskError;
use yurf_task::TaskItem;
use yurf_task::default_path;
use yurf_task::task::default_path_under;

fn engine() -> Task {
    Task::new(TaskConfig { path: Vec::new() })
}

#[test]
fn act_command_is_the_item_command() {
    let item = TaskItem {
        name: "a".to_string(),
        show_if: None,
        command: "open something".to_string(),
    };
    assert_eq!(engine().act_command(&item), "open something");
}

#[test]
fn successful_spawn_is_immediate_success() {
    assert!(engine().act_outcome(None).is_ok());
}

#[test]
fn failed_spawn_is_wrapped_with_context() {
    let err = engine().act_outcome(Some("no such shell".to_string())).unwrap_err();
    assert_eq!(err.context, "failed to start the selected app");
    assert_eq!(err.cause, "no such shell");
}

#[test]
fn default_path_appends_the_subpath() {
    let p = default_path_under(Some("/home/u/.config".to_string())).unwrap();
    assert_eq!(p, "/home/u/.config/yurf/task.toml");
    assert!(matches!(
        default_path_under(None).unwrap_err(),
        TaskError::ConfigDir
    ));
}

#[test]
fn default_path_ends_with_the_subpath() {
    match default_path() {
        Ok(p) => assert!(p.ends_with("/yurf/task.toml")),
        Err(e) => assert!(matches!(e, TaskError::ConfigDir)),
    }
}

#[test]
fn error_messages_name_the_failure() {
    let e = TaskError::ReadTaskFile("denied".to_string());
    assert_eq!(e.message(), "failed to read task config file: denied");
    assert_eq!(
        TaskError::ConfigDir.message(),
        "Could not find config directory"
    );
    let e = TaskError::Toml(yurf_task::ParseError::NoTasks);
    assert_eq!(
        e.message(),
        "failed to parse the toml: no task entry in the file"
    );
}

#[test]
fn action_error_message_joins_context_and_cause() {
    let engine = engine();
    let err = engine.act_outcome(Some("boom".to_string())).unwrap_err();
    assert_eq!(err.message(), "failed to start the selected app: boom");
}
