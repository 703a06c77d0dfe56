use yurf_task::parse::parse_task_file;
use yurf_task::ParseError;

#[test]
fn single_task_parses() {
    let text = "[[task]]\nname = \"hello\"\ncommand = \"echo hi\"\n";
    let items = parse_task_file(text).unwrap();
    assert_eq!(items.len(), 1);
    assert_eq!(items[0].name, "hello");
    assert_eq!(items[0].show_if, None);
    assert_eq!(items[0].command, "echo hi");
}

#[test]
fn show_if_is_optional_and_kept() {
    let text = "[[task]]\nname = \"a\"\nshow_if = \"true\"\ncommand = \"run a\"\n";
    let items = parse_task_file(text).unwrap();
    assert_eq!(items.len(), 1);
    assert_eq!(items[0].show_if.as_deref(), Some("true"));
}

#[test]
fn file_order_is_kept() {
    let text = "[[task]]\nname = \"first\"\ncommand = \"c1\"\n\n[[task]]\nname = \"second\"\ncommand = \"c2\"\n";
    let items = parse_task_file(text).unwrap();
    assert_eq!(items.len(), 2);
    assert_eq!(items[0].name, "first");
    assert_eq!(items[1].name, "second");
}

#[test]
fn blanks_comments_and_padding_are_ignored() {
    let text = "\n# a comment\n  [[task]]  \r\n  name  =  \"a\"  \n\t\ncommand = \"b\"\n# end\n";
    let items = parse_task_file(text).unwrap();
    assert_eq!(items.len(), 1);
    assert_eq!(items[0].name, "a");
    assert_eq!(items[0].command, "b");
}

#[test]
fn escapes_are_decoded() {
    let text = "[[task]]\nname = \"a\\\"b\\\\c\"\ncommand = \"x\\ny\\tz\"\n";
    let items = parse_task_file(text).unwrap();
    assert_eq!(items[0].name, "a\"b\\c");
    assert_eq!(items[0].command, "x\ny\tz");
}

#[test]
fn value_may_contain_equals_sign() {
    let text = "[[task]]\nname = \"n\"\ncommand = \"env A=1 run\"\n";
    let items = parse_task_file(text).unwrap();
    assert_eq!(items[0].command, "env A=1 run");
}

#[test]
fn last_task_missing_command_fails() {
    let text = "[[task]]\nname = \"a\"\n";
    assert_eq!(parse_task_file(text).unwrap_err(), ParseError::MissingCommand);
}

#[test]
fn task_missing_name_fails() {
    let text = "[[task]]\ncommand = \"c\"\n[[task]]\nname = \"b\"\ncommand = \"c\"\n";
    assert_eq!(parse_task_file(text).unwrap_err(), ParseError::MissingName);
}

#[test]
fn duplicate_key_fails() {
    let text = "[[task]]\nname = \"a\"\nname = \"b\"\ncommand = \"c\"\n";
    assert_eq!(parse_task_file(text).unwrap_err(), ParseError::DuplicateKey);
}

#[test]
fn key_before_any_task_fails() {
    let text = "name = \"a\"\n[[task]]\ncommand = \"c\"\n";
    assert_eq!(parse_task_file(text).unwrap_err(), ParseError::KeyOutsideTask);
}

#[test]
fn empty_file_fails() {
    assert_eq!(parse_task_file("").unwrap_err(), ParseError::NoTasks);
    assert_eq!(parse_task_file("# only a comment\n").unwrap_err(), ParseError::NoTasks);
}

#[test]
fn garbage_line_fails() {
    let text = "[[task]]\nname = \"a\"\nwhat is this\ncommand = \"c\"\n";
    assert_eq!(parse_task_file(text).unwrap_err(), ParseError::BadLine);
}

#[test]
fn unknown_key_fails() {
    let text = "[[task]]\nname = \"a\"\nicon = \"x\"\ncommand = \"c\"\n";
    assert_eq!(parse_task_file(text).unwrap_err(), ParseError::BadLine);
}

#[test]
fn unterminated_string_fails() {
    let text = "[[task]]\nname = \"a\ncommand = \"c\"\n";
    assert_eq!(parse_task_file(text).unwrap_err(), ParseError::BadLine);
}

#[test]
fn unknown_escape_fails() {
    let text = "[[task]]\nname = \"a\\qb\"\ncommand = \"c\"\n";
    assert_eq!(parse_task_file(text).unwrap_err(), ParseError::BadLine);
}
