//! Error taxonomy: load-time failures and action spawn failures.

use vstd::prelude::*;

verus! {

/// Why a configuration file's text is not a well-formed task file.
#[derive(Clone, Copy, Debug, PartialEq, Eq, Structural)]
pub enum ParseError {
    /// A line is neither blank, a comment, a `[[task]]` header, nor a
    /// recognized `key = "value"` assignment.
    BadLine,
    /// A key was assigned twice within one task entry.
    DuplicateKey,
    /// A key assignment appeared before the first `[[task]]` header.
    KeyOutsideTask,
    /// A task entry ended without a `name` assignment.
    MissingName,
    /// A task entry ended without a `command` assignment.
    MissingCommand,
    /// The file contains no `[[task]]` entry at all.
    NoTasks,
}

/// What [`ParseError::message`] returns for each failure.
pub open spec fn parse_error_text(e: ParseError) -> Seq<char> {
    match e {
        ParseError::BadLine => "unrecognized line"@,
        ParseError::DuplicateKey => "a key is assigned twice in one task"@,
        ParseError::KeyOutsideTask => "a key assignment before the first task header"@,
        ParseError::MissingName => "a task without a name"@,
        ParseError::MissingCommand => "a task without a command"@,
        ParseError::NoTasks => "no task entry in the file"@,
    }
}

impl ParseError {
    /// A human-readable description of the failure.
    pub fn message(&self) -> (r: String)
        ensures
            r@ == parse_error_text(*self),
    {
        match self {
            ParseError::BadLine => String::from_str("unrecognized line"),
            ParseError::DuplicateKey => String::from_str("a key is assigned twice in one task"),
            ParseError::KeyOutsideTask => String::from_str(
                "a key assignment before the first task header",
            ),
            ParseError::MissingName => String::from_str("a task without a name"),
            ParseError::MissingCommand => String::from_str("a task without a command"),
            ParseError::NoTasks => String::from_str("no task entry in the file"),
        }
    }
}

/// A failure that aborts the whole load.
#[derive(Debug)]
pub enum TaskError {
    /// The platform configuration directory could not be resolved.
    ConfigDir,
    /// A configured file could not be read; carries the reader's message.
    ReadTaskFile(String),
    /// A configured file's contents do not parse as a task file.
    Toml(ParseError),
}

/// The mathematical value of a [`TaskError`].
pub enum TaskErrorV {
    ConfigDir,
    ReadTaskFile(Seq<char>),
    Toml(ParseError),
}

impl View for TaskError {
    type V = TaskErrorV;

    open spec fn view(&self) -> TaskErrorV {
        match self {
            TaskError::ConfigDir => TaskErrorV::ConfigDir,
            TaskError::ReadTaskFile(m) => TaskErrorV::ReadTaskFile(m@),
            TaskError::Toml(e) => TaskErrorV::Toml(*e),
        }
    }
}

/// What [`TaskError::message`] returns for each failure.
pub open spec fn task_error_text(e: TaskErrorV) -> Seq<char> {
    match e {
        TaskErrorV::ConfigDir => "Could not find config directory"@,
        TaskErrorV::ReadTaskFile(m) => "failed to read task config file: "@ + m,
        TaskErrorV::Toml(pe) => "failed to parse the toml: "@ + parse_error_text(pe),
    }
}

impl TaskError {
    /// A human-readable description of the failure, with its cause appended.
    pub fn message(&self) -> (r: String)
        ensures
            r@ == task_error_text(self@),
    {
        match self {
            TaskError::ConfigDir => String::from_str("Could not find config directory"),
            TaskError::ReadTaskFile(m) => String::from_str(
                "failed to read task config file: ",
            ).concat(m.as_str()),
            TaskError::Toml(pe) => String::from_str("failed to parse the toml: ").concat(
                pe.message().as_str(),
            ),
        }
    }
}

/// A failure to launch the selected task's command.
#[derive(Debug)]
pub struct ActionError {
    /// Fixed explanatory context.
    pub context: String,
    /// The underlying spawn failure's message.
    pub cause: String,
}

impl ActionError {
    /// A human-readable description: the context, then the cause.
    pub fn message(&self) -> (r: String)
        ensures
            r@ == self.context@ + ": "@ + self.cause@,
    {
        let mut r = self.context.clone();
        r.append(": ");
        r.append(self.cause.as_str());
        r
    }
}

} // verus!
