use vstd::prelude::*;

use crate::label::{sanitize_label, sanitized};
use crate::list::{all_below, tasks_of, with_done, without_listed, Entry, Task, Todo, TodoError};

verus! {

/// One change that a user asks of the list.
#[derive(Debug)]
pub enum Command {
    /// Append one not-done task per label, in order.
    Add(Vec<String>),
    /// Delete the tasks at these indices.
    Remove(Vec<usize>),
    /// Mark the tasks at these indices done.
    Done(Vec<usize>),
    /// Mark the tasks at these indices not done.
    Undo(Vec<usize>),
}

/// The tasks that raw labels become: each label sanitized, none done.
pub open spec fn new_tasks(labels: Seq<String>) -> Seq<Task> {
    labels.map_values(|l: String| Task { label: sanitized(l@), done: false })
}

/// One entry per label, in order, with the label sanitized and not done.
pub fn entries_from_labels(labels: &Vec<String>) -> (r: Vec<Entry>)
    ensures
        tasks_of(r@) == new_tasks(labels@),
{
    let mut out: Vec<Entry> = Vec::new();
    let mut j: usize = 0;
    while j < labels.len()
        invariant
            j <= labels@.len(),
            tasks_of(out@) == new_tasks(labels@.take(j as int)),
        decreases labels@.len() - j,
    {
        let label = sanitize_label(labels[j].as_str());
        let ghost before = out@;
        out.push(Entry { label, done: false });
        assert(tasks_of(out@) =~= tasks_of(before).push(
            Task { label: sanitized(labels@[j as int]@), done: false },
        ));
        assert(new_tasks(labels@.take(j + 1)) =~= new_tasks(labels@.take(j as int)).push(
            Task { label: sanitized(labels@[j as int]@), done: false },
        ));
        j = j + 1;
    }
    assert(labels@.take(labels@.len() as int) =~= labels@);
    out
}

/// The list after a batch of indices is handled by `step`, or unchanged when
/// an index is not below its length.
pub open spec fn checked(tasks: Seq<Task>, idxs: Seq<usize>, step: Seq<Task>) -> Seq<Task> {
    if all_below(idxs, tasks.len() as int) {
        step
    } else {
        tasks
    }
}

/// The list after `command`.
pub open spec fn after(tasks: Seq<Task>, command: Command) -> Seq<Task> {
    match command {
        Command::Add(labels) => tasks + new_tasks(labels@),
        Command::Remove(idxs) => checked(tasks, idxs@, without_listed(tasks, idxs@)),
        Command::Done(idxs) => checked(tasks, idxs@, with_done(tasks, idxs@, true)),
        Command::Undo(idxs) => checked(tasks, idxs@, with_done(tasks, idxs@, false)),
    }
}

/// Whether `command` is carried out on a list of `len` tasks: adding always
/// is, a batch of indices only when every index is below `len`.
pub open spec fn accepted(len: int, command: Command) -> bool {
    match command {
        Command::Add(_) => true,
        Command::Remove(idxs) => all_below(idxs@, len),
        Command::Done(idxs) => all_below(idxs@, len),
        Command::Undo(idxs) => all_below(idxs@, len),
    }
}

impl Todo {
    /// Carries out `command`. A batch with an index out of range is turned
    /// down as a whole and leaves the list as it was.
    pub fn apply(&mut self, command: &Command) -> (r: Result<(), TodoError>)
        ensures
            final(self).path == old(self).path,
            final(self)@ == after(old(self)@, *command),
            r is Ok <==> accepted(old(self)@.len() as int, *command),
            r is Err ==> r == Err::<(), TodoError>(TodoError::IndexOutOfBounds),
    {
        match command {
            Command::Add(labels) => {
                let entries = entries_from_labels(labels);
                self.add(entries);
                Ok(())
            },
            Command::Remove(idxs) => self.remove(idxs.as_slice()),
            Command::Done(idxs) => self.set_done(idxs.as_slice(), true),
            Command::Undo(idxs) => self.set_done(idxs.as_slice(), false),
        }
    }
}

} // verus!
