use vstd::prelude::*;

use crate::command::{accepted, after, new_tasks, Command};
use crate::list::{listed, with_done, without_listed, Task};

verus! {

/// How many of the positions below `p` are among the indices.
pub open spec fn listed_below(idxs: Seq<usize>, p: int) -> nat
    decreases p,
{
    if p <= 0 {
        0
    } else {
        listed_below(idxs, p - 1) + if listed(idxs, p - 1) {
            1nat
        } else {
            0nat
        }
    }
}

/// Between two positions the count of listed ones grows by at most their
/// distance, and not at all past a position that is not listed.
proof fn lemma_listed_below_grows(idxs: Seq<usize>, p: int, q: int)
    requires
        0 <= p <= q,
    ensures
        listed_below(idxs, q) <= listed_below(idxs, p) + (q - p),
        p < q && !listed(idxs, p) ==> listed_below(idxs, q) <= listed_below(idxs, p) + (q - p - 1),
    decreases q - p,
{
    if p < q {
        lemma_listed_below_grows(idxs, p, q - 1);
    }
}

/// Removal compacts: the list shrinks by the number of listed positions, and
/// every task that is not listed moves to its index less the number of
/// listed positions before it.
pub proof fn lemma_remove_compacts<A>(s: Seq<A>, idxs: Seq<usize>)
    ensures
        without_listed(s, idxs).len() == s.len() - listed_below(idxs, s.len() as int),
        forall|p: int|
            0 <= p < s.len() && !listed(idxs, p) ==> #[trigger] without_listed(s, idxs)[p
                - listed_below(idxs, p)] == s[p],
    decreases s.len(),
{
    if s.len() > 0 {
        let n = s.len() as int;
        let shorter = s.drop_last();
        lemma_remove_compacts(shorter, idxs);
        assert forall|p: int| 0 <= p < s.len() && !listed(idxs, p) implies #[trigger] without_listed(
            s,
            idxs,
        )[p - listed_below(idxs, p)] == s[p] by {
            let rest = without_listed(shorter, idxs);
            lemma_listed_below_grows(idxs, 0, p);
            if p < n - 1 {
                lemma_listed_below_grows(idxs, p, n - 1);
                assert(shorter[p] == s[p]);
                assert(rest[p - listed_below(idxs, p)] == s[p]);
                assert(p - listed_below(idxs, p) < rest.len());
            } else {
                assert(p - listed_below(idxs, p) == rest.len());
            }
        }
    }
}

/// Naming an index twice in a batch of `set_done` has the effect of naming it
/// once.
pub proof fn lemma_duplicate_index(tasks: Seq<Task>, idxs: Seq<usize>, k: int, done: bool)
    requires
        0 <= k < idxs.len(),
    ensures
        with_done(tasks, idxs.push(idxs[k]), done) == with_done(tasks, idxs, done),
{
    let longer = idxs.push(idxs[k]);
    assert forall|p: int| 0 <= p < tasks.len() implies listed(longer, p) == listed(idxs, p) by {
        if listed(idxs, p) {
            let w = choose|w: int| 0 <= w < idxs.len() && idxs[w] == p;
            assert(longer[w] == p);
        }
        if listed(longer, p) {
            let w = choose|w: int| 0 <= w < longer.len() && longer[w] == p;
            if w < idxs.len() {
                assert(idxs[w] == p);
            } else {
                assert(idxs[k] == p);
            }
        }
    }
    assert(with_done(tasks, longer, done) =~= with_done(tasks, idxs, done));
}

/// Setting the flags of a batch twice to the same value leaves the list as
/// setting them once does.
pub proof fn lemma_set_done_twice(tasks: Seq<Task>, idxs: Seq<usize>, done: bool)
    ensures
        with_done(with_done(tasks, idxs, done), idxs, done) == with_done(tasks, idxs, done),
{
    assert(with_done(with_done(tasks, idxs, done), idxs, done) =~= with_done(tasks, idxs, done));
}

/// A command that is turned down leaves every task as it was.
pub proof fn lemma_rejected_command_changes_nothing(tasks: Seq<Task>, command: Command)
    requires
        !accepted(tasks.len() as int, command),
    ensures
        after(tasks, command) == tasks,
{
}

/// Adding keeps the tasks that were there at their indices and puts the new
/// ones after them in the order of their labels, none of them done.
pub proof fn lemma_add_keeps_order(tasks: Seq<Task>, labels: Vec<String>)
    ensures
        ({
            let added = after(tasks, Command::Add(labels));
            &&& added.len() == tasks.len() + labels@.len()
            &&& forall|i: int| 0 <= i < tasks.len() ==> added[i] == tasks[i]
            &&& forall|k: int|
                0 <= k < labels@.len() ==> added[tasks.len() + k] == new_tasks(labels@)[k]
                    && !added[tasks.len() + k].done
        }),
{
}

} // verus!
