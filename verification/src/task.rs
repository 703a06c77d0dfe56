//! The engine instance: its configuration, the default configuration path,
//! and the meaning of executing a selected item.

use vstd::prelude::*;

use crate::error::ActionError;
use crate::error::TaskError;
use crate::error::TaskErrorV;
use crate::item::str_views;
use crate::item::TaskItem;
use crate::load::Loader;

verus! {

/// The ordered list of paths to load tasks from.
#[derive(Debug, Clone)]
pub struct TaskConfig {
    /// The list of paths to load tasks.
    pub path: Vec<String>,
}

/// The task engine: loads, filters and dispatches task items.
#[derive(Debug, Clone)]
pub struct Task {
    pub config: TaskConfig,
}

/// The subpath of the default task file under the configuration directory.
pub open spec fn default_subpath() -> Seq<char> {
    "/yurf/task.toml"@
}

/// Relies on dirs::config_dir: the platform configuration directory, if the
/// platform defines one and it is valid text. The result depends on the
/// process environment, so nothing is stated of it.
#[verifier::external_body]
fn config_dir_text() -> (r: Option<String>) {
    match dirs::config_dir() {
        Some(p) => match p.into_os_string().into_string() {
            Ok(s) => Some(s),
            Err(_) => None,
        },
        None => None,
    }
}

/// The default task-file path under configuration directory `dir`, or the
/// error that resolving no directory means.
pub fn default_path_under(dir: Option<String>) -> (r: Result<String, TaskError>)
    ensures
        match dir {
            None => r matches Err(e) && e@ == TaskErrorV::ConfigDir,
            Some(d) => r matches Ok(p) && p@ == d@ + default_subpath(),
        },
{
    match dir {
        None => Err(TaskError::ConfigDir),
        Some(d) => Ok(d.concat("/yurf/task.toml")),
    }
}

/// The default path is the platform configuration directory's
/// `yurf/task.toml`, or `ConfigDir` if no such directory resolves.
pub fn default_path() -> (r: Result<String, TaskError>)
    ensures
        match r {
            Ok(p) => exists|d: Seq<char>| p@ == d + default_subpath(),
            Err(e) => e@ == TaskErrorV::ConfigDir,
        },
{
    let dir = config_dir_text();
    let ghost gdir = dir;
    let r = default_path_under(dir);
    proof {
        if gdir is Some {
            let d = gdir->0@;
            assert(r->Ok_0@ == d + default_subpath());
        }
    }
    r
}

impl Task {
    /// An engine over `config`.
    pub fn new(config: TaskConfig) -> (t: Self)
        ensures
            t.config == config,
    {
        Task { config }
    }

    /// Start producing the filtered item sequence: a loader over the
    /// configured paths, in their order. Loading is eager — the returned
    /// loader must be driven to its end before any item is seen — while
    /// filtering afterwards is lazy, one item per pull.
    pub fn create_source(&self) -> (l: Loader)
        ensures
            l.wf(),
            str_views(l.paths@) == str_views(self.config.path@),
            l.pos == 0,
            l.supplied@ == Seq::<Result<Seq<char>, Seq<char>>>::empty(),
            l.failure is None,
            l.items@.len() == 0,
    {
        let mut paths: Vec<String> = Vec::new();
        let n = self.config.path.len();
        let mut i: usize = 0;
        proof {
            assert(str_views(paths@) =~= str_views(self.config.path@).take(0));
        }
        while i < n
            invariant
                n == self.config.path@.len(),
                i <= n,
                str_views(paths@) == str_views(self.config.path@).take(i as int),
            decreases n - i,
        {
            let p = self.config.path[i].clone();
            proof {
                let all = str_views(self.config.path@);
                assert(str_views(paths@.push(p)) =~= str_views(paths@).push(p@));
                assert(all.take(i + 1).drop_last() =~= all.take(i as int));
                assert(all.take(i + 1).last() == all[i as int]);
                assert(str_views(paths@).push(p@) =~= all.take(i + 1));
            }
            paths.push(p);
            i = i + 1;
        }
        proof {
            assert(str_views(self.config.path@).take(n as int) =~= str_views(
                self.config.path@,
            ));
        }
        Loader::new(paths)
    }

    /// The shell command to run, detached and unwaited-for, when `item` is
    /// selected.
    pub fn act_command(&self, item: &TaskItem) -> (r: String)
        ensures
            r@ == item.command@,
    {
        item.command.clone()
    }

    /// What the spawn attempt's outcome means: success as soon as the spawn
    /// itself succeeded, else the cause wrapped with explanatory context.
    pub fn act_outcome(&self, spawn_error: Option<String>) -> (r: Result<(), ActionError>)
        ensures
            match spawn_error {
                None => r is Ok,
                Some(m) => r matches Err(e) && e.context@ == act_context() && e.cause@ == m@,
            },
    {
        match spawn_error {
            None => Ok(()),
            Some(m) => Err(
                ActionError { context: String::from_str("failed to start the selected app"), cause: m },
            ),
        }
    }
}

/// The fixed context an action spawn failure is reported with.
pub open spec fn act_context() -> Seq<char> {
    "failed to start the selected app"@
}

} // verus!
