use std::path::PathBuf;
use vstd::prelude::*;

verus! {

/// Declares std's `PathBuf`, so that a store can hold the path it is kept
/// at; the path is only carried, and nothing is assumed of what it holds.
#[verifier::external_type_specification]
#[verifier::external_body]
pub struct ExPathBuf(PathBuf);

/// One list entry: a label and a completion flag.
#[derive(Debug)]
pub struct Entry {
    pub label: String,
    pub done: bool,
}

/// What an entry stands for: its label's characters and its flag.
pub struct Task {
    pub label: Seq<char>,
    pub done: bool,
}

impl View for Entry {
    type V = Task;

    open spec fn view(&self) -> Task {
        Task { label: self.label@, done: self.done }
    }
}

/// The store: an ordered task list and the path it is kept at.
/// A task's position in `tasks` is its index.
#[derive(Debug)]
pub struct Todo {
    pub tasks: Vec<Entry>,
    pub path: PathBuf,
}

/// Why a batch of indices was turned down.
#[derive(Debug, Clone, Copy, PartialEq, Eq, Structural)]
pub enum TodoError {
    /// An index was not below the list's length.
    IndexOutOfBounds,
}

impl TodoError {
    /// The text shown to a user for this error.
    pub fn message(&self) -> (r: &'static str)
        ensures
            r@ == "Index out of bounds"@,
    {
        "Index out of bounds"
    }
}

/// Every index is below `len`.
pub open spec fn all_below(idxs: Seq<usize>, len: int) -> bool {
    forall|k: int| 0 <= k < idxs.len() ==> idxs[k] < len
}

/// Position `i` is among the indices.
pub open spec fn listed(idxs: Seq<usize>, i: int) -> bool {
    exists|k: int| 0 <= k < idxs.len() && idxs[k] == i
}

/// The tasks with the flag of every listed position set to `done`.
pub open spec fn with_done(tasks: Seq<Task>, idxs: Seq<usize>, done: bool) -> Seq<Task> {
    Seq::new(
        tasks.len(),
        |i: int|
            if listed(idxs, i) {
                Task { label: tasks[i].label, done }
            } else {
                tasks[i]
            },
    )
}

/// The items at unlisted positions, in their order.
pub open spec fn without_listed<A>(s: Seq<A>, idxs: Seq<usize>) -> Seq<A>
    decreases s.len(),
{
    if s.len() == 0 {
        s
    } else {
        let rest = without_listed(s.drop_last(), idxs);
        if listed(idxs, s.len() - 1) {
            rest
        } else {
            rest.push(s.last())
        }
    }
}

/// Whether every index is below `len`.
fn all_in_range(idxs: &[usize], len: usize) -> (r: bool)
    ensures
        r == all_below(idxs@, len as int),
{
    let mut j: usize = 0;
    while j < idxs.len()
        invariant
            j <= idxs@.len(),
            forall|k: int| 0 <= k < j ==> idxs@[k] < len,
        decreases idxs@.len() - j,
    {
        if idxs[j] >= len {
            return false;
        }
        j = j + 1;
    }
    true
}

/// Whether `i` is among the indices.
fn is_listed(idxs: &[usize], i: usize) -> (r: bool)
    ensures
        r == listed(idxs@, i as int),
{
    let mut j: usize = 0;
    while j < idxs.len()
        invariant
            j <= idxs@.len(),
            forall|k: int| 0 <= k < j ==> idxs@[k] != i,
        decreases idxs@.len() - j,
    {
        if idxs[j] == i {
            return true;
        }
        j = j + 1;
    }
    false
}

/// The views of a sequence of entries, in order.
pub open spec fn tasks_of(entries: Seq<Entry>) -> Seq<Task> {
    entries.map_values(|e: Entry| e@)
}

impl View for Todo {
    type V = Seq<Task>;

    open spec fn view(&self) -> Seq<Task> {
        tasks_of(self.tasks@)
    }
}

impl Todo {
    /// An empty list kept at `path`.
    pub fn new(path: PathBuf) -> (r: Todo)
        ensures
            r@ == Seq::<Task>::empty(),
            r.path == path,
    {
        Todo { tasks: Vec::new(), path }
    }

    /// Appends `elems` at the end of the list, in their order.
    pub fn add(&mut self, elems: Vec<Entry>)
        ensures
            final(self)@ == old(self)@ + tasks_of(elems@),
            final(self).path == old(self).path,
    {
        let ghost added = elems@;
        let mut elems = elems;
        self.tasks.append(&mut elems);
        assert(self@ =~= old(self)@ + tasks_of(added));
    }

    /// Sets the flag of every listed task to `done`, or fails without
    /// changing anything when an index is not below the list's length.
    pub fn set_done(&mut self, idxs: &[usize], done: bool) -> (r: Result<(), TodoError>)
        ensures
            final(self).path == old(self).path,
            r is Ok <==> all_below(idxs@, old(self)@.len() as int),
            r is Ok ==> final(self)@ == with_done(old(self)@, idxs@, done),
            r is Err ==> final(self)@ == old(self)@ && r == Err::<(), TodoError>(
                TodoError::IndexOutOfBounds,
            ),
    {
        if !all_in_range(idxs, self.tasks.len()) {
            return Err(TodoError::IndexOutOfBounds);
        }
        let ghost start = self@;
        let mut j: usize = 0;
        while j < idxs.len()
            invariant
                j <= idxs@.len(),
                all_below(idxs@, start.len() as int),
                self.path == old(self).path,
                start == old(self)@,
                self.tasks@.len() == start.len(),
                self@ == with_done(start, idxs@.take(j as int), done),
            decreases idxs@.len() - j,
        {
            let i = idxs[j];
            assert(idxs@[j as int] < start.len());
            let label = self.tasks[i].label.clone();
            let ghost prev = self@;
            self.tasks.set(i, Entry { label, done });
            assert(self@ =~= prev.update(i as int, Task { label: prev[i as int].label, done }));
            proof {
                let before = idxs@.take(j as int);
                let after = idxs@.take(j + 1);
                assert forall|p: int| 0 <= p < start.len() implies listed(after, p) == (listed(
                    before,
                    p,
                ) || p == i) by {
                    if p == i {
                        assert(after[j as int] == i);
                    }
                    if listed(before, p) {
                        let k = choose|k: int| 0 <= k < before.len() && before[k] == p;
                        assert(after[k] == p);
                    }
                }
                assert(self@ =~= with_done(start, after, done));
            }
            j = j + 1;
        }
        assert(idxs@.take(idxs@.len() as int) =~= idxs@);
        Ok(())
    }

    /// Deletes every listed task; the others keep their order and close the
    /// gaps. Fails without changing anything when an index is not below the
    /// list's length.
    pub fn remove(&mut self, idxs: &[usize]) -> (r: Result<(), TodoError>)
        ensures
            final(self).path == old(self).path,
            r is Ok <==> all_below(idxs@, old(self)@.len() as int),
            r is Ok ==> final(self)@ == without_listed(old(self)@, idxs@),
            r is Err ==> final(self)@ == old(self)@ && r == Err::<(), TodoError>(
                TodoError::IndexOutOfBounds,
            ),
    {
        if !all_in_range(idxs, self.tasks.len()) {
            return Err(TodoError::IndexOutOfBounds);
        }
        let mut kept: Vec<Entry> = Vec::new();
        let mut i: usize = 0;
        while i < self.tasks.len()
            invariant
                i <= self@.len(),
                *self == *old(self),
                tasks_of(kept@) == without_listed(self@.take(i as int), idxs@),
            decreases self@.len() - i,
        {
            let ghost prefix = self@.take(i + 1);
            assert(prefix.drop_last() =~= self@.take(i as int));
            if !is_listed(idxs, i) {
                let entry = Entry { label: self.tasks[i].label.clone(), done: self.tasks[i].done };
                let ghost before = kept@;
                kept.push(entry);
                assert(tasks_of(kept@) =~= tasks_of(before).push(prefix.last()));
            }
            i = i + 1;
        }
        assert(self@.take(self@.len() as int) =~= self@);
        self.tasks = kept;
        Ok(())
    }
}

} // verus!
