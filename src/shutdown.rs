use tokio::task::{JoinError, JoinHandle};
use tokio_util::sync::CancellationToken;
use vstd::prelude::*;

verus! {

#[verifier::external_type_specification]
#[verifier::external_body]
pub struct ExCancellationToken(CancellationToken);

#[verifier::external_type_specification]
#[verifier::external_body]
#[verifier::reject_recursive_types(T)]
pub struct ExJoinHandle<T>(JoinHandle<T>);

#[verifier::external_type_specification]
#[verifier::external_body]
pub struct ExJoinError(JoinError);

#[verifier::external_type_specification]
#[verifier::external_body]
pub struct ExAnyhowError(anyhow::Error);

/// Relies on `CancellationToken::new`: a fresh, not yet cancelled signal.
pub assume_specification[ CancellationToken::new ]() -> CancellationToken;

/// Relies on `CancellationToken::cancel`: sets the shared flag; a second call
/// is a no-op.
pub assume_specification[ CancellationToken::cancel ](token: &CancellationToken);

/// Relies on `Clone for CancellationToken`: the clone holds the same shared
/// node as the original (the crate's `PartialEq` compares exactly that node),
/// so cancelling either cancels both.
pub assume_specification[ <CancellationToken as Clone>::clone ](
    token: &CancellationToken,
) -> (r: CancellationToken)
    ensures
        r == *token,
;

/// Cleanup that runs when the shared signal preempts normal work.
pub trait ShutdownHook {
    fn shutdown(&self) -> Result<(), anyhow::Error> {
        Ok(())
    }
}

/// Owns the process-wide cancellation signal and the handles of the tasks
/// that must finish before shutdown completes.
pub struct ShutdownCoordinator {
    token: CancellationToken,
    tasks: Vec<JoinHandle<()>>,
}

impl ShutdownCoordinator {
    /// The signal that every task of this coordinator observes.
    pub closed spec fn signal(&self) -> CancellationToken {
        self.token
    }

    /// The registered tasks, in the order of registration.
    pub closed spec fn registered(&self) -> Seq<JoinHandle<()>> {
        self.tasks@
    }

    pub fn new() -> (r: Self)
        ensures
            r.registered() == Seq::<JoinHandle<()>>::empty(),
    {
        ShutdownCoordinator { token: CancellationToken::new(), tasks: Vec::new() }
    }

    /// A handle on the coordinator's own signal: cancelling one cancels all.
    pub fn token(&self) -> (r: CancellationToken)
        ensures
            r == self.signal(),
    {
        self.token.clone()
    }

    pub fn register_task(&mut self, task: JoinHandle<()>)
        ensures
            final(self).registered() == old(self).registered().push(task),
            final(self).signal() == old(self).signal(),
    {
        self.tasks.push(task);
    }

    /// Cancels the signal (a no-op if it already was) and hands out every
    /// registered task, in the order of registration, to be awaited.
    pub fn begin_shutdown(self) -> (r: Vec<JoinHandle<()>>)
        ensures
            r@ == self.registered(),
    {
        self.token.cancel();
        self.tasks
    }
}

/// The positions, in increasing order, of the tasks whose outcome is a
/// failure (`false`) among the first `n` outcomes.
pub open spec fn failures_before(ok: Seq<bool>, n: int) -> Seq<usize>
    decreases n,
{
    if n <= 0 {
        Seq::empty()
    } else if ok[n - 1] {
        failures_before(ok, n - 1)
    } else {
        failures_before(ok, n - 1).push((n - 1) as usize)
    }
}

/// `failures_before` lists, in strictly increasing order, exactly the
/// positions below `n` whose outcome is a failure.
pub proof fn lemma_failures_before(ok: Seq<bool>, n: int)
    requires
        0 <= n <= ok.len() <= usize::MAX,
    ensures
        forall|k: int| 0 <= k < failures_before(ok, n).len()
            ==> failures_before(ok, n)[k] < n && !ok[failures_before(ok, n)[k] as int],
        forall|k1: int, k2: int| 0 <= k1 < k2 < failures_before(ok, n).len()
            ==> failures_before(ok, n)[k1] < failures_before(ok, n)[k2],
        forall|j: int| 0 <= j < n && !ok[j] ==> failures_before(ok, n).contains(j as usize),
    decreases n,
{
    if n > 0 {
        lemma_failures_before(ok, n - 1);
        let prev = failures_before(ok, n - 1);
        if !ok[n - 1] {
            let cur = prev.push((n - 1) as usize);
            assert forall|j: int| 0 <= j < n && !ok[j] implies cur.contains(j as usize) by {
                if j < n - 1 {
                    let k = choose|k: int| 0 <= k < prev.len() && prev[k] == j as usize;
                    assert(cur[k] == j as usize);
                } else {
                    assert(cur[prev.len() as int] == j as usize);
                }
            }
        }
    }
}

/// The positions of the failed tasks, given each awaited task's outcome in
/// registration order (`true` for a task that ran to completion). A failure
/// is reported and the remaining tasks are still awaited, so every position
/// is examined.
pub fn failed_tasks(ok: &Vec<bool>) -> (r: Vec<usize>)
    ensures
        r@ == failures_before(ok@, ok@.len() as int),
        forall|k: int| 0 <= k < r@.len() ==> r@[k] < ok@.len() && !ok@[r@[k] as int],
        forall|k1: int, k2: int| 0 <= k1 < k2 < r@.len() ==> r@[k1] < r@[k2],
        forall|j: int| 0 <= j < ok@.len() && !ok@[j] ==> r@.contains(j as usize),
{
    let len = ok.len();
    proof {
        lemma_failures_before(ok@, len as int);
    }
    let mut r: Vec<usize> = Vec::new();
    let mut i: usize = 0;
    while i < ok.len()
        invariant
            i <= ok@.len(),
            r@ == failures_before(ok@, i as int),
        decreases ok@.len() - i,
    {
        if !ok[i] {
            r.push(i);
        }
        i = i + 1;
    }
    r
}

} // verus!
