use vstd::prelude::*;

verus! {

/// Where a worker stands in its loop.
#[derive(Debug, Clone, Copy, PartialEq, Eq, Structural)]
pub enum WorkerState {
    /// Waiting for the next message.
    Idle,
    /// Running the job it took last.
    Busy,
    /// Took a stop signal; it never takes another message.
    Exited,
}

/// The pool's record of one worker: its identity, fixed when the pool is
/// built, its place in the loop, and whether its thread has been joined.
#[derive(Debug, Clone, Copy, PartialEq, Eq, Structural)]
pub struct Worker {
    pub id: usize,
    pub state: WorkerState,
    pub joined: bool,
}

/// The record of a worker that has just been started.
pub open spec fn fresh_worker(id: usize) -> Worker {
    Worker { id, state: WorkerState::Idle, joined: false }
}

/// The number of workers that have left their loop.
pub open spec fn exited_count(s: Seq<Worker>) -> nat
    decreases s.len(),
{
    if s.len() == 0 {
        0
    } else {
        exited_count(s.drop_last()) + if s.last().state is Exited {
            1nat
        } else {
            0nat
        }
    }
}

pub proof fn lemma_exited_count_bound(s: Seq<Worker>)
    ensures
        exited_count(s) <= s.len(),
        exited_count(s) == s.len() ==> forall|i: int|
            0 <= i < s.len() ==> (#[trigger] s[i]).state is Exited,
        (forall|i: int| 0 <= i < s.len() ==> !((#[trigger] s[i]).state is Exited)) ==> exited_count(
            s,
        ) == 0,
        exited_count(s) == 0 ==> forall|i: int|
            0 <= i < s.len() ==> !((#[trigger] s[i]).state is Exited),
    decreases s.len(),
{
    if s.len() > 0 {
        let t = s.drop_last();
        lemma_exited_count_bound(t);
        assert forall|i: int| 0 <= i < t.len() implies #[trigger] t[i] == s[i] by {}
        if exited_count(s) == 0 {
            assert forall|i: int| 0 <= i < s.len() implies !((#[trigger] s[i]).state is Exited) by {
                if i < t.len() {
                    assert(t[i] == s[i]);
                }
            }
        }
        if exited_count(s) == s.len() {
            assert forall|i: int| 0 <= i < s.len() implies (#[trigger] s[i]).state is Exited by {
                if i < t.len() {
                    assert(t[i] == s[i]);
                }
            }
        }
    }
}

pub proof fn lemma_exited_count_update(s: Seq<Worker>, i: int, w: Worker)
    requires
        0 <= i < s.len(),
    ensures
        exited_count(s.update(i, w)) + (if s[i].state is Exited {
            1nat
        } else {
            0nat
        }) == exited_count(s) + (if w.state is Exited {
            1nat
        } else {
            0nat
        }),
    decreases s.len(),
{
    if i == s.len() - 1 {
        assert(s.update(i, w).drop_last() =~= s.drop_last());
    } else {
        lemma_exited_count_update(s.drop_last(), i, w);
        assert(s.update(i, w).drop_last() =~= s.drop_last().update(i, w));
    }
}

/// When every worker has left its loop, all of them are counted.
pub proof fn lemma_exited_count_exact(s: Seq<Worker>)
    requires
        forall|i: int| 0 <= i < s.len() ==> (#[trigger] s[i]).state is Exited,
    ensures
        exited_count(s) == s.len(),
    decreases s.len(),
{
    if s.len() > 0 {
        let t = s.drop_last();
        assert forall|i: int| 0 <= i < t.len() implies (#[trigger] t[i]).state is Exited by {
            assert(t[i] == s[i]);
        }
        lemma_exited_count_exact(t);
    }
}

} // verus!
