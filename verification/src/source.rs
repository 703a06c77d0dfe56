//! The lazy, filtered sequence of visible task items.
//!
//! A [`TaskSource`] walks the loaded items one pull at a time. An item
//! without a `show_if` predicate is yielded at once; for an item with one,
//! the source hands the caller the predicate command to run, and the caller
//! answers with whether it exited 0. Nothing is evaluated before it is
//! pulled, nothing is cached, and a predicate failure of any kind is an
//! answer of `false`, never an error.

use vstd::prelude::*;

use crate::item::item_views;
use crate::item::TaskItem;
use crate::item::TaskItemV;

verus! {

/// Whether an item is visible, given the answer `v` to its predicate.
/// An item without a predicate is visible whatever `v` is.
pub open spec fn keep(it: TaskItemV, v: bool) -> bool {
    it.show_if is None || v
}

/// The visible items among `items`, in order, where `vis[i]` answers item
/// `i`'s predicate (and is ignored for items without one).
pub open spec fn spec_filter(items: Seq<TaskItemV>, vis: Seq<bool>) -> Seq<TaskItemV>
    decreases items.len(),
{
    if items.len() == 0 {
        Seq::empty()
    } else {
        let prefix = spec_filter(items.drop_last(), vis.drop_last());
        if keep(items.last(), vis.last()) {
            prefix.push(items.last())
        } else {
            prefix
        }
    }
}

/// One step of pulling the source.
pub enum Pull {
    /// Every item was considered; the sequence is over.
    Done,
    /// The next visible item.
    Item(TaskItem),
    /// The current item has this predicate command; run it as a shell
    /// command and answer whether it exited 0.
    Predicate(String),
}

/// The filtering source: a single-pass cursor over the loaded items.
pub struct TaskSource {
    /// The loaded items, in load order.
    pub items: Vec<TaskItem>,
    /// The index of the next item to consider.
    pub pos: usize,
    /// Whether a predicate for the item at `pos` is out with the caller.
    pub awaiting: bool,
    /// The recorded visibility answer of every item already passed.
    pub vis: Ghost<Seq<bool>>,
    /// The items yielded so far, in order.
    pub yielded: Ghost<Seq<TaskItemV>>,
}

impl TaskSource {
    /// The cursor's state is consistent: it has yielded exactly the visible
    /// items among those already passed, under the recorded answers.
    pub open spec fn wf(&self) -> bool {
        &&& self.pos <= self.items@.len()
        &&& self.vis@.len() == self.pos
        &&& (self.awaiting ==> self.pos < self.items@.len() && self.items@[
            self.pos as int
        ]@.show_if is Some)
        &&& self.yielded@ == spec_filter(
            item_views(self.items@).take(self.pos as int),
            self.vis@,
        )
    }

    /// A source that has considered nothing yet.
    pub open spec fn fresh(&self) -> bool {
        &&& self.pos == 0
        &&& !self.awaiting
        &&& self.vis@.len() == 0
        &&& self.yielded@.len() == 0
    }

    /// A source over `items`, before any pull.
    pub fn new(items: Vec<TaskItem>) -> (src: TaskSource)
        ensures
            src.wf(),
            src.fresh(),
            src.items == items,
    {
        let src = TaskSource {
            items,
            pos: 0,
            awaiting: false,
            vis: Ghost(Seq::empty()),
            yielded: Ghost(Seq::empty()),
        };
        proof {
            assert(item_views(src.items@).take(0) =~= Seq::<TaskItemV>::empty());
        }
        src
    }

    /// Pull the next step. An item without a predicate is yielded and passed;
    /// an item with one is left in place and its command is handed out; past
    /// the last item the sequence is done, and the yielded items are exactly
    /// the visible ones, in load order.
    pub fn pull(&mut self) -> (r: Pull)
        requires
            old(self).wf(),
            !old(self).awaiting,
        ensures
            final(self).wf(),
            final(self).items == old(self).items,
            match r {
                Pull::Done => {
                    &&& old(self).pos == old(self).items@.len()
                    &&& *final(self) == *old(self)
                    &&& final(self).yielded@ == spec_filter(
                        item_views(final(self).items@),
                        final(self).vis@,
                    )
                },
                Pull::Item(it) => {
                    &&& old(self).pos < old(self).items@.len()
                    &&& old(self).items@[old(self).pos as int]@.show_if is None
                    &&& it@ == old(self).items@[old(self).pos as int]@
                    &&& final(self).pos == old(self).pos + 1
                    &&& !final(self).awaiting
                    &&& final(self).vis@ == old(self).vis@.push(true)
                    &&& final(self).yielded@ == old(self).yielded@.push(it@)
                },
                Pull::Predicate(c) => {
                    &&& old(self).pos < old(self).items@.len()
                    &&& old(self).items@[old(self).pos as int]@.show_if == Some(c@)
                    &&& final(self).pos == old(self).pos
                    &&& final(self).awaiting
                    &&& final(self).vis@ == old(self).vis@
                    &&& final(self).yielded@ == old(self).yielded@
                },
            },
    {
        if self.pos == self.items.len() {
            proof {
                assert(item_views(self.items@).take(self.pos as int) =~= item_views(
                    self.items@,
                ));
            }
            return Pull::Done;
        }
        match &self.items[self.pos].show_if {
            Some(cmd) => {
                let c = cmd.clone();
                self.awaiting = true;
                Pull::Predicate(c)
            },
            None => {
                let it = self.items[self.pos].clone();
                proof {
                    let all = item_views(self.items@);
                    let p = self.pos as int;
                    assert(all.take(p + 1).drop_last() =~= all.take(p));
                    assert(all.take(p + 1).last() == all[p]);
                    assert(self.vis@.push(true).drop_last() =~= self.vis@);
                }
                self.pos = self.pos + 1;
                self.vis = Ghost(self.vis@.push(true));
                self.yielded = Ghost(self.yielded@.push(it@));
                Pull::Item(it)
            },
        }
    }

    /// Answer the predicate handed out by the last pull: `exit_zero` says
    /// whether the command exited with status 0. The item is yielded exactly
    /// on `true`; on `false` it is passed over, silently.
    pub fn answer(&mut self, exit_zero: bool) -> (r: Option<TaskItem>)
        requires
            old(self).wf(),
            old(self).awaiting,
        ensures
            final(self).wf(),
            final(self).items == old(self).items,
            final(self).pos == old(self).pos + 1,
            !final(self).awaiting,
            final(self).vis@ == old(self).vis@.push(exit_zero),
            match r {
                Some(it) => {
                    &&& exit_zero
                    &&& it@ == old(self).items@[old(self).pos as int]@
                    &&& final(self).yielded@ == old(self).yielded@.push(it@)
                },
                None => !exit_zero && final(self).yielded@ == old(self).yielded@,
            },
    {
        let n = self.items.len();
        proof {
            assert(self.pos < n);
            let all = item_views(self.items@);
            let p = self.pos as int;
            assert(all.take(p + 1).drop_last() =~= all.take(p));
            assert(all.take(p + 1).last() == all[p]);
            assert(self.vis@.push(exit_zero).drop_last() =~= self.vis@);
        }
        let r = if exit_zero {
            let it = self.items[self.pos].clone();
            self.yielded = Ghost(self.yielded@.push(it@));
            Some(it)
        } else {
            None
        };
        self.awaiting = false;
        self.pos = self.pos + 1;
        self.vis = Ghost(self.vis@.push(exit_zero));
        r
    }
}

} // verus!
