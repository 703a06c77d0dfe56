//! Loading task items from an ordered list of configuration files.
//!
//! The engine never reads the file system itself. A [`Loader`] names, one at
//! a time, the next path to read; the caller reads it and hands back either
//! the file's text or a read-error message. The first failure aborts the
//! load: no later path is asked for, and the error is returned as-is.

use vstd::prelude::*;

use crate::error::TaskError;
use crate::error::TaskErrorV;
use crate::item::item_views;
use crate::item::TaskItem;
use crate::item::TaskItemV;
use crate::parse::parse_task_file;
use crate::parse::spec_parse_file;
use crate::source::TaskSource;

verus! {

/// The outcome of reading one file: its text, or a read-error message.
pub type ReadOutcome = Result<String, String>;

/// The mathematical value of a [`ReadOutcome`].
pub open spec fn outcome_view(o: ReadOutcome) -> Result<Seq<char>, Seq<char>> {
    match o {
        Ok(s) => Ok(s@),
        Err(m) => Err(m@),
    }
}

/// The meaning of a whole load: given the outcome of reading each file, in
/// order, the concatenation of every file's items in that order — or the
/// first failure, a read error or a parse error, unchanged.
pub open spec fn spec_load(files: Seq<Result<Seq<char>, Seq<char>>>) -> Result<
    Seq<TaskItemV>,
    TaskErrorV,
>
    decreases files.len(),
{
    if files.len() == 0 {
        Ok(Seq::empty())
    } else {
        match spec_load(files.drop_last()) {
            Err(e) => Err(e),
            Ok(items) => match files.last() {
                Err(m) => Err(TaskErrorV::ReadTaskFile(m)),
                Ok(content) => match spec_parse_file(content) {
                    Err(pe) => Err(TaskErrorV::Toml(pe)),
                    Ok(ts) => Ok(items + ts),
                },
            },
        }
    }
}

/// An in-progress load of an ordered list of task files.
pub struct Loader {
    /// The paths to load, in order.
    pub paths: Vec<String>,
    /// How many paths have been supplied so far.
    pub pos: usize,
    /// The items of the files supplied so far, in order.
    pub items: Vec<TaskItem>,
    /// The first failure, if one has happened.
    pub failure: Option<TaskError>,
    /// The outcome of every read supplied so far, in order.
    pub supplied: Ghost<Seq<Result<Seq<char>, Seq<char>>>>,
}

impl Loader {
    /// The loader's state is consistent: it has recorded exactly the supplied
    /// reads, and its items or its failure are what those reads mean.
    pub open spec fn wf(&self) -> bool {
        &&& self.pos == self.supplied@.len()
        &&& self.pos <= self.paths@.len()
        &&& match self.failure {
            None => spec_load(self.supplied@) == Ok::<Seq<TaskItemV>, TaskErrorV>(
                item_views(self.items@),
            ),
            Some(e) => spec_load(self.supplied@) == Err::<Seq<TaskItemV>, TaskErrorV>(e@),
        }
    }

    /// Whether the load still wants a file read.
    pub open spec fn wants_read(&self) -> bool {
        self.failure is None && self.pos < self.paths@.len()
    }

    /// Start a load of `paths`.
    pub fn new(paths: Vec<String>) -> (l: Loader)
        ensures
            l.wf(),
            l.paths == paths,
            l.pos == 0,
            l.supplied@ == Seq::<Result<Seq<char>, Seq<char>>>::empty(),
            l.failure is None,
            l.items@.len() == 0,
    {
        let l = Loader {
            paths,
            pos: 0,
            items: Vec::new(),
            failure: None,
            supplied: Ghost(Seq::empty()),
        };
        proof {
            assert(item_views(l.items@) =~= Seq::<TaskItemV>::empty());
        }
        l
    }

    /// The next path to read, in the order the paths were given — or `None`
    /// once every path was supplied or a failure ended the load early.
    pub fn next_path(&self) -> (r: Option<String>)
        ensures
            match r {
                Some(p) => self.wants_read() && p@ == self.paths@[self.pos as int]@,
                None => !self.wants_read(),
            },
    {
        if self.failure.is_some() {
            return None;
        }
        if self.pos < self.paths.len() {
            Some(self.paths[self.pos].clone())
        } else {
            None
        }
    }

    /// Hand the loader the outcome of reading the path it asked for. On a
    /// text, the file is parsed and its items are appended; on a read error
    /// or a parse error, the load fails with it and asks for nothing more.
    pub fn supply(&mut self, outcome: ReadOutcome)
        requires
            old(self).wf(),
            old(self).wants_read(),
        ensures
            final(self).wf(),
            final(self).paths == old(self).paths,
            final(self).pos == old(self).pos + 1,
            final(self).supplied@ == old(self).supplied@.push(outcome_view(outcome)),
    {
        let n = self.paths.len();
        proof {
            assert(self.pos < n);
        }
        let ghost fs = self.supplied@.push(outcome_view(outcome));
        proof {
            assert(fs.drop_last() =~= self.supplied@);
            assert(fs.last() == outcome_view(outcome));
        }
        match outcome {
            Err(m) => {
                self.failure = Some(TaskError::ReadTaskFile(m));
            },
            Ok(content) => match parse_task_file(content.as_str()) {
                Err(pe) => {
                    self.failure = Some(TaskError::Toml(pe));
                },
                Ok(mut ts) => {
                    let ghost before = self.items@;
                    let ghost tsv = ts@;
                    self.items.append(&mut ts);
                    proof {
                        assert(item_views(before + tsv) =~= item_views(before) + item_views(tsv));
                    }
                },
            },
        }
        self.pos = self.pos + 1;
        self.supplied = Ghost(fs);
    }

    /// Close the load: the filtering source over every loaded item, or the
    /// first failure.
    pub fn finish(self) -> (r: Result<TaskSource, TaskError>)
        requires
            self.wf(),
            !self.wants_read(),
        ensures
            match r {
                Ok(src) => {
                    &&& src.wf()
                    &&& src.fresh()
                    &&& spec_load(self.supplied@) == Ok::<Seq<TaskItemV>, TaskErrorV>(
                        item_views(src.items@),
                    )
                },
                Err(e) => spec_load(self.supplied@) == Err::<Seq<TaskItemV>, TaskErrorV>(e@),
            },
    {
        match self.failure {
            Some(e) => Err(e),
            None => Ok(TaskSource::new(self.items)),
        }
    }
}

} // verus!
