use yurf_task::Pull;
use yurf_task::Task;
use yurf_task::TaskConfig;
use yurf_task::TaskError;

fn engine(paths: Vec<&str>) -> Task {
    Task::new(TaskConfig { path: paths.into_iter().map(|p| p.to_string()).collect() })
}

/// Drive a loader with in-memory file contents, then pull everything,
/// answering every predicate from `answers` in order.
fn list_names(
    task: &Task,
    files: Vec<Result<&str, &str>>,
    mut answers: Vec<bool>,
) -> Result<Vec<String>, TaskError> {
    let mut loader = task.create_source();
    let mut supplied = 0;
    while let Some(_path) = loader.next_path() {
        let outcome = match files[supplied] {
            Ok(text) => Ok(text.to_string()),
            Err(msg) => Err(msg.to_string()),
        };
        loader.supply(outcome);
        supplied += 1;
    }
    let mut source = loader.finish()?;
    answers.reverse();
    let mut names = Vec::new();
    loop {
        match source.pull() {
            Pull::Done => break,
            Pull::Item(it) => names.push(it.name),
            Pull::Predicate(_cmd) => {
                if let Some(it) = source.answer(answers.pop().unwrap()) {
                    names.push(it.name);
                }
            }
        }
    }
    Ok(names)
}

const A_TOML: &str = "[[task]]\nname = \"T1\"\ncommand = \"c1\"\n\n[[task]]\nname = \"T2\"\ncommand = \"c2\"\n";
const B_TOML: &str = "[[task]]\nname = \"T3\"\ncommand = \"c3\"\n";

#[test]
fn two_files_concatenate_in_path_order() {
    let task = engine(vec!["a.toml", "b.toml"]);
    let names = list_names(&task, vec![Ok(A_TOML), Ok(B_TOML)], vec![]).unwrap();
    assert_eq!(names, vec!["T1", "T2", "T3"]);
}

#[test]
fn loader_asks_for_paths_in_order() {
    let task = engine(vec!["a.toml", "b.toml"]);
    let mut loader = task.create_source();
    assert_eq!(loader.next_path().as_deref(), Some("a.toml"));
    loader.supply(Ok(A_TOML.to_string()));
    assert_eq!(loader.next_path().as_deref(), Some("b.toml"));
    loader.supply(Ok(B_TOML.to_string()));
    assert_eq!(loader.next_path(), None);
    assert!(loader.finish().is_ok());
}

#[test]
fn malformed_file_fails_whole_load() {
    let task = engine(vec!["a.toml", "b.toml", "c.toml"]);
    let err = list_names(&task, vec![Ok(A_TOML), Ok("not a task file"), Ok(B_TOML)], vec![])
        .unwrap_err();
    assert!(matches!(err, TaskError::Toml(_)));
}

#[test]
fn load_stops_asking_after_a_failure() {
    let task = engine(vec!["a.toml", "b.toml", "c.toml"]);
    let mut loader = task.create_source();
    assert!(loader.next_path().is_some());
    loader.supply(Ok("garbage".to_string()));
    // fail-fast: the remaining paths are never asked for
    assert_eq!(loader.next_path(), None);
    match loader.finish() {
        Err(e) => assert!(matches!(e, TaskError::Toml(_))),
        Ok(_) => panic!("the load should have failed"),
    }
}

#[test]
fn unreadable_file_fails_whole_load() {
    let task = engine(vec!["a.toml", "missing.toml"]);
    let err =
        list_names(&task, vec![Ok(A_TOML), Err("no such file")], vec![]).unwrap_err();
    match err {
        TaskError::ReadTaskFile(msg) => assert_eq!(msg, "no such file"),
        other => panic!("expected a read failure, got {:?}", other),
    }
}

#[test]
fn item_without_predicate_is_always_included() {
    let text = "[[task]]\nname = \"gated\"\nshow_if = \"exit 1\"\ncommand = \"c\"\n\n[[task]]\nname = \"plain\"\ncommand = \"c\"\n";
    let task = engine(vec!["t.toml"]);
    let names = list_names(&task, vec![Ok(text)], vec![false]).unwrap();
    assert_eq!(names, vec!["plain"]);
}

#[test]
fn predicate_exit_zero_includes_item() {
    let text = "[[task]]\nname = \"gated\"\nshow_if = \"exit 0\"\ncommand = \"c\"\n";
    let task = engine(vec!["t.toml"]);
    let names = list_names(&task, vec![Ok(text)], vec![true]).unwrap();
    assert_eq!(names, vec!["gated"]);
}

#[test]
fn predicate_failure_excludes_item_without_error() {
    // a nonzero exit and a command that could not be run at all both come
    // back as a `false` answer: hidden, never an error
    let text = "[[task]]\nname = \"gated\"\nshow_if = \"exit 1\"\ncommand = \"c\"\n";
    let task = engine(vec!["t.toml"]);
    let names = list_names(&task, vec![Ok(text)], vec![false]).unwrap();
    assert_eq!(names, Vec::<String>::new());
}

#[test]
fn empty_path_list_yields_empty_sequence() {
    let task = engine(vec![]);
    let loader = task.create_source();
    // nothing is ever read
    assert_eq!(loader.next_path(), None);
    let mut source = loader.finish().unwrap();
    assert!(matches!(source.pull(), Pull::Done));
}

#[test]
fn predicates_are_evaluated_lazily_per_pull() {
    let text = "[[task]]\nname = \"a\"\nshow_if = \"p1\"\ncommand = \"c\"\n\n[[task]]\nname = \"b\"\nshow_if = \"p2\"\ncommand = \"c\"\n";
    let task = engine(vec!["t.toml"]);
    let mut loader = task.create_source();
    loader.supply(Ok(text.to_string()));
    let mut source = loader.finish().unwrap();
    // construction ran no predicate; the first pull hands out exactly the
    // first item's command, the second is not asked for yet
    match source.pull() {
        Pull::Predicate(cmd) => assert_eq!(cmd, "p1"),
        _ => panic!("expected a predicate request"),
    }
    assert_eq!(source.answer(true).unwrap().name, "a");
    match source.pull() {
        Pull::Predicate(cmd) => assert_eq!(cmd, "p2"),
        _ => panic!("expected a predicate request"),
    }
    assert!(source.answer(false).is_none());
    assert!(matches!(source.pull(), Pull::Done));
}
