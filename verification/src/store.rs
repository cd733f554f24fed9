//! The task store: an ordered list of tasks, oldest first.

use crate::laws::{lemma_add_keeps_well_formed, lemma_delete_keeps_well_formed};
use crate::task::{Task, TaskView};
use vstd::prelude::*;

verus! {

/// The views of a list of tasks, in the same order.
pub open spec fn task_views(tasks: Seq<Task>) -> Seq<TaskView> {
    tasks.map_values(|t: Task| t@)
}

/// The greatest id among `tasks`, or 0 when there is none.
pub open spec fn max_id(tasks: Seq<TaskView>) -> nat
    decreases tasks.len(),
{
    if tasks.len() == 0 {
        0
    } else {
        let before = max_id(tasks.drop_last());
        if tasks.last().id > before {
            tasks.last().id
        } else {
            before
        }
    }
}

/// The id that the next added task receives: one more than the greatest id in use.
pub open spec fn next_id(tasks: Seq<TaskView>) -> nat {
    max_id(tasks) + 1
}

/// `tasks` with a new, not yet completed task at its end.
pub open spec fn with_new_task(tasks: Seq<TaskView>, description: Seq<char>) -> Seq<TaskView> {
    tasks.push(TaskView { id: next_id(tasks), description, completed: false })
}

/// Whether some task in `tasks` carries `id`.
pub open spec fn has_id(tasks: Seq<TaskView>, id: nat) -> bool {
    exists|i: int| 0 <= i < tasks.len() && (#[trigger] tasks[i]).id == id
}

/// `tasks` without the tasks that carry `id`; the others keep their order.
pub open spec fn without_id(tasks: Seq<TaskView>, id: nat) -> Seq<TaskView> {
    tasks.filter(|t: TaskView| t.id != id)
}

/// No two tasks share an id.
pub open spec fn ids_distinct(tasks: Seq<TaskView>) -> bool {
    forall|i: int, j: int|
        0 <= i < j < tasks.len() ==> (#[trigger] tasks[i]).id != (#[trigger] tasks[j]).id
}

/// What a store is meant to be: every id is positive and no two tasks share
/// one.
pub open spec fn well_formed(tasks: Seq<TaskView>) -> bool {
    &&& ids_distinct(tasks)
    &&& forall|i: int| 0 <= i < tasks.len() ==> (#[trigger] tasks[i]).id >= 1
}

/// `max_id` is an upper bound of the ids, and one of them unless there is none.
pub proof fn lemma_max_id_is_greatest(tasks: Seq<TaskView>)
    ensures
        forall|i: int| 0 <= i < tasks.len() ==> (#[trigger] tasks[i]).id <= max_id(tasks),
        tasks.len() == 0 ==> max_id(tasks) == 0,
        tasks.len() > 0 ==> has_id(tasks, max_id(tasks)),
    decreases tasks.len(),
{
    if tasks.len() > 0 {
        let front = tasks.drop_last();
        lemma_max_id_is_greatest(front);
        assert forall|i: int| 0 <= i < tasks.len() implies (#[trigger] tasks[i]).id <= max_id(
            tasks,
        ) by {
            if i < front.len() {
                assert(front[i] == tasks[i]);
            }
        }
        if tasks.last().id > max_id(front) {
            assert(tasks[tasks.len() - 1].id == max_id(tasks));
        } else {
            if front.len() == 0 {
                assert(tasks[tasks.len() - 1].id == max_id(tasks));
            } else {
                let i = choose|i: int|
                    0 <= i < front.len() && (#[trigger] front[i]).id == max_id(front);
                assert(tasks[i] == front[i]);
            }
        }
    }
}

/// How `without_id` and `has_id` grow when one more task of `tasks` is taken in.
proof fn lemma_scan_step(tasks: Seq<TaskView>, k: int, id: nat)
    requires
        0 <= k < tasks.len(),
    ensures
        without_id(tasks.take(k + 1), id) == if tasks[k].id != id {
            without_id(tasks.take(k), id).push(tasks[k])
        } else {
            without_id(tasks.take(k), id)
        },
        has_id(tasks.take(k + 1), id) == (has_id(tasks.take(k), id) || tasks[k].id == id),
{
    reveal(Seq::filter);
    let longer = tasks.take(k + 1);
    assert(longer.drop_last() == tasks.take(k));
    assert(longer.last() == tasks[k]);
    if has_id(tasks.take(k), id) {
        let i = choose|i: int| 0 <= i < k && (#[trigger] tasks.take(k)[i]).id == id;
        assert(longer[i].id == id);
    }
    if tasks[k].id == id {
        assert(longer[k].id == id);
    }
    if has_id(longer, id) {
        let i = choose|i: int| 0 <= i < k + 1 && (#[trigger] longer[i]).id == id;
        if i < k {
            assert(tasks.take(k)[i].id == id);
        }
    }
}

/// The tasks kept between invocations, in the order in which they were added.
#[derive(Debug)]
pub struct TaskStore {
    tasks: Vec<Task>,
}

impl View for TaskStore {
    type V = Seq<TaskView>;

    closed spec fn view(&self) -> Seq<TaskView> {
        task_views(self.tasks@)
    }
}

impl TaskStore {
    /// A store that holds no task.
    pub fn new() -> (store: TaskStore)
        ensures
            store@ == Seq::<TaskView>::empty(),
            well_formed(store@),
    {
        TaskStore { tasks: Vec::new() }
    }

    /// A store that holds `tasks`, in their order.
    pub fn from_tasks(tasks: Vec<Task>) -> (store: TaskStore)
        ensures
            store@ == task_views(tasks@),
    {
        TaskStore { tasks }
    }

    /// The tasks of the store, oldest first.
    pub fn tasks(&self) -> (tasks: &Vec<Task>)
        ensures
            task_views(tasks@) == self@,
    {
        &self.tasks
    }

    /// The greatest id in use, or 0 when the store is empty.
    pub fn max_id(&self) -> (greatest: u32)
        ensures
            greatest == max_id(self@),
    {
        let mut greatest: u32 = 0;
        let mut i: usize = 0;
        while i < self.tasks.len()
            invariant
                i <= self.tasks@.len(),
                greatest == max_id(self@.take(i as int)),
            decreases self.tasks@.len() - i,
        {
            assert(self@.take(i + 1).drop_last() == self@.take(i as int));
            if self.tasks[i].id > greatest {
                greatest = self.tasks[i].id;
            }
            i += 1;
        }
        assert(self@.take(i as int) == self@);
        greatest
    }

    /// Appends a task with the next free id and returns that id.
    pub fn add(&mut self, description: String) -> (id: u32)
        requires
            max_id(old(self)@) < u32::MAX,
        ensures
            id == next_id(old(self)@),
            final(self)@ == with_new_task(old(self)@, description@),
            well_formed(old(self)@) ==> well_formed(final(self)@),
    {
        let id: u32 = self.max_id() + 1;
        self.tasks.push(Task::new(id, description));
        proof {
            assert(self@ == with_new_task(old(self)@, description@));
            if well_formed(old(self)@) {
                lemma_add_keeps_well_formed(old(self)@, description@);
            }
        }
        id
    }

    /// Removes every task that carries `id`, and says whether there was one.
    pub fn delete(&mut self, id: u32) -> (removed: bool)
        ensures
            final(self)@ == without_id(old(self)@, id as nat),
            removed == has_id(old(self)@, id as nat),
            removed == (final(self)@.len() < old(self)@.len()),
            well_formed(old(self)@) ==> well_formed(final(self)@),
            well_formed(old(self)@) && removed ==> final(self)@.len() == old(self)@.len() - 1,
    {
        let mut present: Vec<Task> = Vec::new();
        std::mem::swap(&mut present, &mut self.tasks);
        let initial_len: usize = present.len();
        let ghost before = task_views(present@);
        for task in it: present
            invariant
                task_views(it.seq()) == before,
                task_views(self.tasks@) == without_id(before.take(it.index()), id as nat),
                has_id(before.take(it.index()), id as nat) == (self.tasks@.len() < it.index()),
                self.tasks@.len() <= it.index(),
        {
            proof {
                lemma_scan_step(before, it.index(), id as nat);
                assert(task@ == before[it.index()]);
            }
            if task.id != id {
                self.tasks.push(task);
            }
        }
        proof {
            assert(before.take(before.len() as int) == before);
            if well_formed(before) {
                lemma_delete_keeps_well_formed(before, id as nat);
            }
        }
        self.tasks.len() < initial_len
    }
}

} // verus!
