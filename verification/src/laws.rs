//! The laws of the engine, stated and proved once and for all inputs:
//! loading concatenates per-file items in path order, the first failure
//! fails the whole load, and filtering keeps exactly the visible items.

use vstd::prelude::*;

use crate::error::TaskErrorV;
use crate::load::spec_load;
use crate::parse::spec_parse_file;
use crate::source::keep;
use crate::source::spec_filter;
use crate::item::TaskItemV;

verus! {

/// The items one successfully read and parsed file contributes.
pub open spec fn parsed_items(f: Result<Seq<char>, Seq<char>>) -> Seq<TaskItemV> {
    spec_parse_file(f->Ok_0)->Ok_0
}

/// A load over files that all read and parse successfully succeeds, and its
/// item list is the concatenation of each file's items, in the order the
/// files were given, each file's items in file order.
pub proof fn lemma_load_concatenates(files: Seq<Result<Seq<char>, Seq<char>>>)
    requires
        forall|i: int|
            0 <= i < files.len() ==> files[i] is Ok && spec_parse_file(files[i]->Ok_0) is Ok,
    ensures
        spec_load(files) == Ok::<Seq<TaskItemV>, TaskErrorV>(
            files.map_values(|f: Result<Seq<char>, Seq<char>>| parsed_items(f)).flatten_alt(),
        ),
    decreases files.len(),
{
    let m = files.map_values(|f: Result<Seq<char>, Seq<char>>| parsed_items(f));
    if files.len() == 0 {
        assert(m.len() == 0);
        assert(m.flatten_alt() =~= Seq::<TaskItemV>::empty());
    } else {
        let prefix = files.drop_last();
        lemma_load_concatenates(prefix);
        let mp = prefix.map_values(|f: Result<Seq<char>, Seq<char>>| parsed_items(f));
        assert(mp =~= m.drop_last());
        assert(files.last() is Ok && spec_parse_file(files.last()->Ok_0) is Ok);
        assert(m.last() == parsed_items(files.last()));
        assert(spec_load(files) == Ok::<Seq<TaskItemV>, TaskErrorV>(
            mp.flatten_alt() + m.last(),
        ));
        assert(m.flatten_alt() == m.drop_last().flatten_alt() + m.last());
    }
}

/// A file that fails to parse — anywhere in the list — fails the whole load
/// with that parse error, whatever the files after it hold.
pub proof fn lemma_parse_failure_fails_load(files: Seq<Result<Seq<char>, Seq<char>>>, k: int)
    requires
        0 <= k < files.len(),
        files[k] is Ok,
        spec_parse_file(files[k]->Ok_0) is Err,
        forall|j: int| 0 <= j < k ==> files[j] is Ok && spec_parse_file(files[j]->Ok_0) is Ok,
    ensures
        spec_load(files) == Err::<Seq<TaskItemV>, TaskErrorV>(
            TaskErrorV::Toml(spec_parse_file(files[k]->Ok_0)->Err_0),
        ),
    decreases files.len(),
{
    let prefix = files.drop_last();
    if k == files.len() - 1 {
        lemma_load_concatenates(prefix);
        assert(files.last() == files[k]);
    } else {
        lemma_parse_failure_fails_load(prefix, k);
        assert(prefix[k] == files[k]);
    }
}

/// A file that cannot be read — anywhere in the list — fails the whole load
/// with that read error, whatever the files after it hold.
pub proof fn lemma_read_failure_fails_load(files: Seq<Result<Seq<char>, Seq<char>>>, k: int)
    requires
        0 <= k < files.len(),
        files[k] is Err,
        forall|j: int| 0 <= j < k ==> files[j] is Ok && spec_parse_file(files[j]->Ok_0) is Ok,
    ensures
        spec_load(files) == Err::<Seq<TaskItemV>, TaskErrorV>(
            TaskErrorV::ReadTaskFile(files[k]->Err_0),
        ),
    decreases files.len(),
{
    let prefix = files.drop_last();
    if k == files.len() - 1 {
        lemma_load_concatenates(prefix);
        assert(files.last() == files[k]);
    } else {
        lemma_read_failure_fails_load(prefix, k);
        assert(prefix[k] == files[k]);
    }
}

/// An item that is visible — its predicate absent, or answered true — is in
/// the filtered sequence.
pub proof fn lemma_visible_included(items: Seq<TaskItemV>, vis: Seq<bool>, i: int)
    requires
        vis.len() == items.len(),
        0 <= i < items.len(),
        keep(items[i], vis[i]),
    ensures
        spec_filter(items, vis).contains(items[i]),
    decreases items.len(),
{
    let res = spec_filter(items, vis);
    if i == items.len() - 1 {
        assert(res == spec_filter(items.drop_last(), vis.drop_last()).push(items[i]));
        assert(res[res.len() - 1] == items[i]);
    } else {
        lemma_visible_included(items.drop_last(), vis.drop_last(), i);
        let prefix = spec_filter(items.drop_last(), vis.drop_last());
        assert(items.drop_last()[i] == items[i]);
        let j = choose|j: int| 0 <= j < prefix.len() && prefix[j] == items[i];
        assert(res[j] == items[i]);
    }
}

/// An item with its `show_if` predicate absent is always in the filtered
/// sequence, whatever was answered for anything.
pub proof fn lemma_always_visible_included(items: Seq<TaskItemV>, vis: Seq<bool>, i: int)
    requires
        vis.len() == items.len(),
        0 <= i < items.len(),
        items[i].show_if is None,
    ensures
        spec_filter(items, vis).contains(items[i]),
{
    lemma_visible_included(items, vis, i);
}

/// An item every occurrence of which has a predicate answered false is not
/// in the filtered sequence: hidden, never an error. (The hypothesis must
/// cover every occurrence: were an equal item elsewhere visible, the equal
/// value would appear.)
pub proof fn lemma_hidden_excluded(items: Seq<TaskItemV>, vis: Seq<bool>, x: TaskItemV)
    requires
        vis.len() == items.len(),
        forall|j: int| 0 <= j < items.len() && items[j] == x ==> !keep(items[j], vis[j]),
    ensures
        !spec_filter(items, vis).contains(x),
    decreases items.len(),
{
    if items.len() == 0 {
    } else {
        let pi = items.drop_last();
        let pv = vis.drop_last();
        assert(forall|j: int| 0 <= j < pi.len() && pi[j] == x ==> !keep(pi[j], pv[j])) by {
            assert(forall|j: int| 0 <= j < pi.len() ==> pi[j] == items[j] && pv[j] == vis[j]);
        }
        lemma_hidden_excluded(pi, pv, x);
        let prefix = spec_filter(pi, pv);
        let res = spec_filter(items, vis);
        if keep(items.last(), vis.last()) {
            assert(items.last() != x);
            assert(!res.contains(x)) by {
                if res.contains(x) {
                    let j = choose|j: int| 0 <= j < res.len() && res[j] == x;
                    if j < res.len() - 1 {
                        assert(prefix[j] == x);
                        assert(prefix.contains(x));
                    } else {
                        assert(res[j] == items.last());
                    }
                }
            }
        }
    }
}

} // verus!
