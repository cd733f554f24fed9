//! The three commands and what each does to a store.

use crate::render::{
    added_message, added_text, deleted_message, deleted_text, line_views, listing,
    not_found_message, not_found_text,
};
use crate::store::{
    has_id, max_id, next_id, well_formed, with_new_task, without_id, TaskStore,
};
use crate::task::TaskView;
use vstd::prelude::*;

verus! {

/// One request of the user.
#[derive(Debug)]
pub enum Command {
    /// Add a task with this description.
    Add { description: String },
    /// Show the tasks.
    List,
    /// Delete the task with this id.
    Delete { id: u32 },
}

/// What a command produced: the lines to show, and whether the store was
/// changed and has to be written back.
#[derive(Debug)]
pub struct Outcome {
    /// The lines to print, in order.
    pub lines: Vec<String>,
    /// Whether the store differs from what was loaded. The caller writes the
    /// store back exactly when this is set, and before it prints the lines.
    pub changed: bool,
}

/// The store that `command` leaves behind when it is run on `tasks`.
pub open spec fn store_after(tasks: Seq<TaskView>, command: Command) -> Seq<TaskView> {
    match command {
        Command::Add { description } => with_new_task(tasks, description@),
        Command::List => tasks,
        Command::Delete { id } => without_id(tasks, id as nat),
    }
}

/// The lines that `command` shows when it is run on `tasks`.
pub open spec fn report(tasks: Seq<TaskView>, command: Command) -> Seq<Seq<char>> {
    match command {
        Command::Add { .. } => seq![added_text(next_id(tasks))],
        Command::List => listing(tasks),
        Command::Delete { id } => if has_id(tasks, id as nat) {
            seq![deleted_text(id as nat)]
        } else {
            seq![not_found_text(id as nat)]
        },
    }
}

/// Whether `command`, run on `tasks`, changes the store: an addition always
/// does, a listing never, a deletion when it finds the id.
pub open spec fn changes_store(tasks: Seq<TaskView>, command: Command) -> bool {
    match command {
        Command::Add { .. } => true,
        Command::List => false,
        Command::Delete { id } => has_id(tasks, id as nat),
    }
}

/// Runs `command` on `store`: changes the store as the command asks and says
/// what to print and whether the store has to be written back.
///
/// An addition needs a free id above the greatest one in use.
pub fn execute(store: &mut TaskStore, command: Command) -> (outcome: Outcome)
    requires
        command is Add ==> max_id(old(store)@) < u32::MAX,
    ensures
        final(store)@ == store_after(old(store)@, command),
        line_views(outcome.lines@) == report(old(store)@, command),
        outcome.changed == changes_store(old(store)@, command),
        well_formed(old(store)@) ==> well_formed(final(store)@),
{
    let mut lines: Vec<String> = Vec::new();
    match command {
        Command::Add { description } => {
            let id: u32 = store.add(description);
            lines.push(added_message(id));
            assert(line_views(lines@) =~= report(old(store)@, command));
            Outcome { lines, changed: true }
        },
        Command::List => Outcome { lines: store.list(), changed: false },
        Command::Delete { id } => {
            let removed: bool = store.delete(id);
            if removed {
                lines.push(deleted_message(id));
            } else {
                lines.push(not_found_message(id));
            }
            assert(line_views(lines@) =~= report(old(store)@, command));
            Outcome { lines, changed: removed }
        },
    }
}

} // verus!
