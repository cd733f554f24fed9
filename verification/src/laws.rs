//! General facts about additions, deletions, listings and loading, proved
//! from the definitions that the contracts of the store, of the commands and
//! of `load` use.

use crate::command::{changes_store, report, store_after, Command};
use crate::persistence::stored_tasks;
use crate::render::{listing, no_tasks_text, not_found_text};
use crate::store::{
    has_id, lemma_max_id_is_greatest, max_id, next_id, well_formed, with_new_task, without_id,
};
use crate::task::TaskView;
use vstd::prelude::*;

verus! {

/// The store after tasks with `descriptions` were added to `start`, one after
/// the other.
pub open spec fn after_adds(start: Seq<TaskView>, descriptions: Seq<Seq<char>>) -> Seq<TaskView>
    decreases descriptions.len(),
{
    if descriptions.len() == 0 {
        start
    } else {
        with_new_task(after_adds(start, descriptions.drop_last()), descriptions.last())
    }
}

/// An addition raises the greatest id by exactly one.
pub proof fn lemma_add_raises_max_id(tasks: Seq<TaskView>, description: Seq<char>)
    ensures
        max_id(with_new_task(tasks, description)) == max_id(tasks) + 1,
        next_id(with_new_task(tasks, description)) == next_id(tasks) + 1,
{
    let added = with_new_task(tasks, description);
    assert(added.drop_last() == tasks);
}

/// Additions only append: after `descriptions` were added to `start`, the
/// store begins with `start` and holds one more task for each description.
pub proof fn lemma_adds_append(start: Seq<TaskView>, descriptions: Seq<Seq<char>>)
    ensures
        after_adds(start, descriptions).len() == start.len() + descriptions.len(),
        after_adds(start, descriptions).take(start.len() as int) == start,
        next_id(after_adds(start, descriptions)) == next_id(start) + descriptions.len(),
    decreases descriptions.len(),
{
    if descriptions.len() > 0 {
        let earlier = after_adds(start, descriptions.drop_last());
        lemma_adds_append(start, descriptions.drop_last());
        lemma_add_raises_max_id(earlier, descriptions.last());
        assert(after_adds(start, descriptions).take(start.len() as int) == earlier.take(
            start.len() as int,
        ));
    } else {
        assert(start.take(start.len() as int) == start);
    }
}

/// Successive additions assign consecutive ids: whatever the store held at
/// first, the addition that follows `k` earlier ones assigns the id
/// `next_id(start) + k`, and the task it made stays in the store, after the
/// earlier ones, with its description and not completed.
pub proof fn lemma_adds_assign_consecutive_ids(
    start: Seq<TaskView>,
    descriptions: Seq<Seq<char>>,
    k: int,
)
    requires
        0 <= k < descriptions.len(),
    ensures
        next_id(after_adds(start, descriptions.take(k))) == next_id(start) + k,
        after_adds(start, descriptions)[start.len() + k] == (TaskView {
            id: (next_id(start) + k) as nat,
            description: descriptions[k],
            completed: false,
        }),
    decreases descriptions.len(),
{
    lemma_adds_append(start, descriptions.take(k));
    let front = descriptions.drop_last();
    lemma_adds_append(start, front);
    if k == descriptions.len() - 1 {
        assert(descriptions.take(k) == front);
    } else {
        lemma_adds_assign_consecutive_ids(start, front, k);
        assert(front.take(k) == descriptions.take(k));
        assert(front[k] == descriptions[k]);
    }
}

/// Starting from an empty store, the additions assign the ids 1, 2, 3 and so
/// on: each id is one more than the one before, and the first is 1.
pub proof fn lemma_adds_to_empty_store_count_from_one(descriptions: Seq<Seq<char>>, k: int)
    requires
        0 <= k < descriptions.len(),
    ensures
        next_id(after_adds(Seq::empty(), descriptions.take(k))) == k + 1,
        after_adds(Seq::empty(), descriptions)[k].id == k + 1,
{
    lemma_adds_assign_consecutive_ids(Seq::empty(), descriptions, k);
}

/// A deletion touches no task with another id: the task at position `i`,
/// if its id is not the deleted one, is found unchanged in the result, behind
/// exactly those tasks before it that were kept as well.
pub proof fn lemma_delete_keeps_other_tasks(tasks: Seq<TaskView>, id: nat, i: int)
    requires
        0 <= i < tasks.len(),
        tasks[i].id != id,
    ensures
        without_id(tasks.take(i), id).len() < without_id(tasks, id).len(),
        without_id(tasks, id)[without_id(tasks.take(i), id).len() as int] == tasks[i],
        without_id(tasks, id).take(without_id(tasks.take(i), id).len() as int) == without_id(
            tasks.take(i),
            id,
        ),
{
    let keep = |t: TaskView| t.id != id;
    let front = tasks.take(i);
    let here = seq![tasks[i]];
    let back = tasks.skip(i + 1);
    assert(tasks == front + here + back);
    Seq::filter_distributes_over_add(front + here, back, keep);
    Seq::filter_distributes_over_add(front, here, keep);
    assert(here.filter(keep) == here) by {
        reveal(Seq::filter);
        assert(here.drop_last().filter(keep) == Seq::<TaskView>::empty());
    }
    assert(without_id(tasks, id) == front.filter(keep) + here + back.filter(keep));
}

/// Every task of the result of a deletion is a task of the store with
/// another id.
pub proof fn lemma_delete_invents_nothing(tasks: Seq<TaskView>, id: nat, j: int)
    requires
        0 <= j < without_id(tasks, id).len(),
    ensures
        without_id(tasks, id)[j].id != id,
        tasks.contains(without_id(tasks, id)[j]),
{
    let keep = |t: TaskView| t.id != id;
    tasks.lemma_filter_pred(keep, j);
    tasks.lemma_filter_contains_rev(keep, without_id(tasks, id)[j]);
}

/// Deleting an id that no task carries leaves the store as it is.
pub proof fn lemma_delete_of_missing_id_changes_nothing(tasks: Seq<TaskView>, id: nat)
    requires
        !has_id(tasks, id),
    ensures
        without_id(tasks, id) == tasks,
    decreases tasks.len(),
{
    reveal(Seq::filter);
    if tasks.len() > 0 {
        let front = tasks.drop_last();
        assert forall|i: int| 0 <= i < front.len() implies (#[trigger] front[i]).id != id by {
            assert(tasks[i].id != id);
        }
        lemma_delete_of_missing_id_changes_nothing(front, id);
        assert(tasks[tasks.len() - 1].id != id);
        assert(front.push(tasks.last()) == tasks);
    }
}

/// A deletion that finds no task under its id changes nothing that can be
/// seen: the store stays as it is, nothing is to be written back, the only
/// line shown says that the id was not found, and a listing shows afterwards
/// what it showed before.
pub proof fn lemma_failed_delete_is_invisible(tasks: Seq<TaskView>, id: u32)
    requires
        !has_id(tasks, id as nat),
    ensures
        store_after(tasks, Command::Delete { id }) == tasks,
        !changes_store(tasks, Command::Delete { id }),
        report(tasks, Command::Delete { id }) == seq![not_found_text(id as nat)],
        listing(store_after(tasks, Command::Delete { id })) == listing(tasks),
{
    lemma_delete_of_missing_id_changes_nothing(tasks, id as nat);
}

/// Listing an empty store shows the notice that there are no tasks and
/// nothing else, and leaves the store empty and unwritten.
pub proof fn lemma_empty_store_lists_only_the_notice()
    ensures
        listing(Seq::empty()) == seq![no_tasks_text()],
        report(Seq::empty(), Command::List) == seq!["No tasks yet."@],
        store_after(Seq::empty(), Command::List) == Seq::<TaskView>::empty(),
        !changes_store(Seq::empty(), Command::List),
{
}

/// Loading gives back what was saved, for every way of writing a store down
/// that the decoder can read back and that leaves the file empty for no store
/// but the empty one.
pub proof fn lemma_load_restores_saved_store(
    encode: spec_fn(Seq<TaskView>) -> Seq<char>,
    decode: spec_fn(Seq<char>) -> Option<Seq<TaskView>>,
    tasks: Seq<TaskView>,
)
    requires
        decode(encode(tasks)) == Some(tasks),
        encode(tasks).len() == 0 ==> tasks.len() == 0,
    ensures
        stored_tasks(encode(tasks), decode(encode(tasks))) == Some(tasks),
{
    if encode(tasks).len() == 0 {
        assert(tasks == Seq::<TaskView>::empty());
    }
}

/// An addition keeps a store well formed: the new id is positive and
/// greater than every id in use.
pub proof fn lemma_add_keeps_well_formed(tasks: Seq<TaskView>, description: Seq<char>)
    requires
        well_formed(tasks),
    ensures
        well_formed(with_new_task(tasks, description)),
        !has_id(tasks, next_id(tasks)),
{
    lemma_max_id_is_greatest(tasks);
}

/// A deletion keeps a store well formed, and takes exactly one task out of
/// it when it finds the id.
pub proof fn lemma_delete_keeps_well_formed(tasks: Seq<TaskView>, id: nat)
    requires
        well_formed(tasks),
    ensures
        well_formed(without_id(tasks, id)),
        has_id(tasks, id) ==> without_id(tasks, id).len() == tasks.len() - 1,
        !has_id(without_id(tasks, id), id),
    decreases tasks.len(),
{
    reveal(Seq::filter);
    let kept = without_id(tasks, id);
    if tasks.len() > 0 {
        let front = tasks.drop_last();
        let last = tasks.last();
        assert forall|i: int| 0 <= i < front.len() implies (#[trigger] front[i]) == tasks[i] by {}
        assert(well_formed(front));
        lemma_delete_keeps_well_formed(front, id);
        let kept_front = without_id(front, id);
        assert forall|j: int| 0 <= j < kept_front.len() implies (#[trigger] kept_front[j]).id
            != last.id by {
            lemma_delete_invents_nothing(front, id, j);
            let i = choose|i: int| 0 <= i < front.len() && front[i] == kept_front[j];
            assert(tasks[i].id != tasks[tasks.len() - 1].id);
        }
        if last.id == id {
            assert(kept == kept_front);
            if has_id(front, id) {
                let i = choose|i: int| 0 <= i < front.len() && (#[trigger] front[i]).id == id;
                assert(tasks[i].id != tasks[tasks.len() - 1].id);
            }
            lemma_delete_of_missing_id_changes_nothing(front, id);
        } else {
            assert(kept == kept_front.push(last));
            if has_id(tasks, id) {
                let i = choose|i: int| 0 <= i < tasks.len() && (#[trigger] tasks[i]).id == id;
                assert(front[i].id == id);
            }
            if has_id(kept, id) {
                let j = choose|j: int| 0 <= j < kept.len() && (#[trigger] kept[j]).id == id;
                assert(kept_front[j].id == id);
            }
        }
        assert(tasks[tasks.len() - 1].id >= 1);
    }
}

} // verus!
