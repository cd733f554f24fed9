//! From the text of the store file to a store.

use crate::store::{task_views, TaskStore};
use crate::task::{Task, TaskView};
use vstd::prelude::*;

verus! {

/// Why the store could not be loaded or saved.
#[derive(Debug)]
pub enum PersistenceError {
    /// The file holds text that is not a list of tasks.
    Parse(String),
    /// The file could not be opened, read or written.
    Io(String),
}

/// The tasks that a decoder found, or `None` where it failed.
pub open spec fn decoded_tasks(decoded: Result<Vec<Task>, String>) -> Option<Seq<TaskView>> {
    match decoded {
        Ok(tasks) => Some(task_views(tasks@)),
        Err(_) => None,
    }
}

/// The store that a file with the text `contents` stands for, where
/// `decoded` is what the decoder found in that text: an empty file is an
/// empty store, whatever the decoder says of it; any other text is the
/// decoder's to judge.
pub open spec fn stored_tasks(contents: Seq<char>, decoded: Option<Seq<TaskView>>) -> Option<
    Seq<TaskView>,
> {
    if contents.len() == 0 {
        Some(Seq::empty())
    } else {
        decoded
    }
}

/// Builds the store from the text of the store file and from what the
/// decoder made of that text.
///
/// Loading fails only where the file is not empty and the decoder failed on
/// it; the error is then a parse error that carries the decoder's message.
pub fn load(contents: &str, decoded: Result<Vec<Task>, String>) -> (loaded: Result<
    TaskStore,
    PersistenceError,
>)
    ensures
        loaded is Ok <==> contents@.len() == 0 || decoded is Ok,
        loaded matches Ok(store) ==> Some(store@) == stored_tasks(
            contents@,
            decoded_tasks(decoded),
        ),
        loaded matches Err(error) ==> decoded matches Err(message) && error
            == PersistenceError::Parse(message),
{
    if contents.is_empty() {
        Ok(TaskStore::new())
    } else {
        match decoded {
            Ok(tasks) => Ok(TaskStore::from_tasks(tasks)),
            Err(message) => Err(PersistenceError::Parse(message)),
        }
    }
}

} // verus!
