use vstd::prelude::*;

verus! {

/// What travels on the dispatch queue: a job to run, or the signal that
/// tells exactly one worker to stop.
pub enum Message<J> {
    NewJob(J),
    Terminate,
}

/// The number of stop signals in a run of messages.
pub open spec fn terminates<J>(s: Seq<Message<J>>) -> nat
    decreases s.len(),
{
    if s.len() == 0 {
        0
    } else {
        terminates(s.drop_last()) + if s.last() is Terminate {
            1nat
        } else {
            0nat
        }
    }
}

/// `n` stop signals in a row.
pub open spec fn terminate_run<J>(n: nat) -> Seq<Message<J>> {
    Seq::new(n, |i: int| Message::<J>::Terminate)
}

pub proof fn lemma_terminates_push<J>(s: Seq<Message<J>>, m: Message<J>)
    ensures
        terminates(s.push(m)) == terminates(s) + if m is Terminate {
            1nat
        } else {
            0nat
        },
{
    assert(s.push(m).drop_last() =~= s);
}

pub proof fn lemma_terminates_append<J>(a: Seq<Message<J>>, b: Seq<Message<J>>)
    ensures
        terminates(a + b) == terminates(a) + terminates(b),
    decreases b.len(),
{
    if b.len() == 0 {
        assert(a + b =~= a);
    } else {
        lemma_terminates_append(a, b.drop_last());
        assert((a + b).drop_last() =~= a + b.drop_last());
    }
}

/// A run of messages that ends with a stop signal holds at least one.
pub proof fn lemma_terminates_last<J>(s: Seq<Message<J>>)
    requires
        s.len() > 0,
        s.last() is Terminate,
    ensures
        terminates(s) >= 1,
{
}

} // verus!
