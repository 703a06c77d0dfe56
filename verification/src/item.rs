//! The task item data model and its mathematical view.

use vstd::prelude::*;

verus! {

/// One selectable, executable task entry, exactly as declared in a
/// configuration file.
#[derive(Debug)]
pub struct TaskItem {
    /// Display label.
    pub name: String,
    /// Optional shell predicate: the item is visible only when running this
    /// command exits with status 0. Absent means "always visible".
    pub show_if: Option<String>,
    /// Shell command executed when the item is selected.
    pub command: String,
}

/// The mathematical value of a [`TaskItem`]: its three fields as character
/// sequences.
pub struct TaskItemV {
    pub name: Seq<char>,
    pub show_if: Option<Seq<char>>,
    pub command: Seq<char>,
}

impl View for TaskItem {
    type V = TaskItemV;

    open spec fn view(&self) -> TaskItemV {
        TaskItemV {
            name: self.name@,
            show_if: match self.show_if {
                Some(s) => Some(s@),
                None => None,
            },
            command: self.command@,
        }
    }
}

impl Clone for TaskItem {
    fn clone(&self) -> (r: Self)
        ensures
            r@ == self@,
    {
        TaskItem {
            name: self.name.clone(),
            show_if: match &self.show_if {
                Some(s) => Some(s.clone()),
                None => None,
            },
            command: self.command.clone(),
        }
    }
}

/// The views of a sequence of task items.
pub open spec fn item_views(v: Seq<TaskItem>) -> Seq<TaskItemV> {
    v.map_values(|t: TaskItem| t@)
}

/// The views of a sequence of strings.
pub open spec fn str_views(v: Seq<String>) -> Seq<Seq<char>> {
    v.map_values(|s: String| s@)
}

} // verus!
