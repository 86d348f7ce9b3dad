use vstd::prelude::*;

verus! {

/// How many sent and not yet consumed messages an actor's queue holds before
/// a sender is suspended.
pub const MAILBOX_CAPACITY: usize = 8;

/// Where a supervised actor is in its life.
#[derive(PartialEq, Eq, Structural, Clone, Copy, Debug)]
pub enum Phase {
    /// Consuming its message queue.
    Running,
    /// The shared signal was cancelled; the shutdown hook is running.
    ShuttingDown,
    /// The supervised task has exited.
    Terminated,
}

/// What the supervisor observed.
pub enum Event<M> {
    /// A message came out of the queue.
    Received(M),
    /// The queue has no senders left and no messages.
    Drained,
    /// The shared signal was cancelled.
    Cancelled,
    /// The shutdown hook returned, successfully or not.
    HookFinished,
}

/// What the supervisor does next.
pub enum Action<M> {
    /// Hand the message to the actor.
    Handle(M),
    /// Run the actor's shutdown hook.
    RunHook,
    /// End the supervised task.
    Exit,
    /// Nothing: the event is dropped (a message that arrives after the signal
    /// was cancelled is discarded, not consumed).
    Idle,
}

pub open spec fn next<M>(phase: Phase, event: Event<M>) -> (Phase, Action<M>) {
    match phase {
        Phase::Running => match event {
            Event::Received(m) => (Phase::Running, Action::Handle(m)),
            Event::Drained => (Phase::Terminated, Action::Exit),
            Event::Cancelled => (Phase::ShuttingDown, Action::RunHook),
            Event::HookFinished => (Phase::Running, Action::Idle),
        },
        Phase::ShuttingDown => match event {
            Event::HookFinished => (Phase::Terminated, Action::Exit),
            _ => (Phase::ShuttingDown, Action::Idle),
        },
        Phase::Terminated => (Phase::Terminated, Action::Idle),
    }
}

/// The supervisor's decision on one event.
pub fn step<M>(phase: Phase, event: Event<M>) -> (r: (Phase, Action<M>))
    ensures
        r == next(phase, event),
{
    match phase {
        Phase::Running => match event {
            Event::Received(m) => (Phase::Running, Action::Handle(m)),
            Event::Drained => (Phase::Terminated, Action::Exit),
            Event::Cancelled => (Phase::ShuttingDown, Action::RunHook),
            Event::HookFinished => (Phase::Running, Action::Idle),
        },
        Phase::ShuttingDown => match event {
            Event::HookFinished => (Phase::Terminated, Action::Exit),
            _ => (Phase::ShuttingDown, Action::Idle),
        },
        Phase::Terminated => (Phase::Terminated, Action::Idle),
    }
}

/// The phase reached and the actions taken when `events` are observed in
/// order, starting from `phase`.
pub open spec fn run<M>(phase: Phase, events: Seq<Event<M>>) -> (Phase, Seq<Action<M>>)
    decreases events.len(),
{
    if events.len() == 0 {
        (phase, Seq::empty())
    } else {
        let (p, a) = next(phase, events[0]);
        let (q, rest) = run(p, events.subrange(1, events.len() as int));
        (q, seq![a] + rest)
    }
}

pub open spec fn received<M>(msgs: Seq<M>) -> Seq<Event<M>> {
    msgs.map_values(|m: M| Event::Received(m))
}

pub open spec fn handled<M>(msgs: Seq<M>) -> Seq<Action<M>> {
    msgs.map_values(|m: M| Action::Handle(m))
}

/// Observing `a` and then `b` is observing `a` and, from where that left
/// off, observing `b`.
pub proof fn lemma_run_append<M>(phase: Phase, a: Seq<Event<M>>, b: Seq<Event<M>>)
    ensures
        run(phase, a + b) == (run(run(phase, a).0, b).0, run(phase, a).1 + run(run(phase, a).0, b).1),
    decreases a.len(),
{
    if a.len() == 0 {
        assert(a + b =~= b);
        assert(run(phase, a).1 + run(phase, b).1 =~= run(phase, b).1);
    } else {
        let (p, act) = next(phase, a[0]);
        assert((a + b).subrange(1, (a + b).len() as int) =~= a.subrange(1, a.len() as int) + b);
        lemma_run_append(p, a.subrange(1, a.len() as int), b);
        let ra = run(p, a.subrange(1, a.len() as int));
        let rb = run(ra.0, b);
        assert(seq![act] + (ra.1 + rb.1) =~= (seq![act] + ra.1) + rb.1);
    }
}

/// While the signal is not cancelled, every message that comes out of the
/// queue is handed to the actor exactly once, in the order of the queue, and
/// the actor keeps running.
pub proof fn lemma_messages_handled_in_order<M>(msgs: Seq<M>)
    ensures
        run(Phase::Running, received(msgs)) == (Phase::Running, handled(msgs)),
    decreases msgs.len(),
{
    if msgs.len() > 0 {
        let rest = msgs.subrange(1, msgs.len() as int);
        assert(received(msgs).subrange(1, msgs.len() as int) =~= received(rest));
        lemma_messages_handled_in_order(rest);
        assert(seq![Action::Handle(msgs[0])] + handled(rest) =~= handled(msgs));
    }
}

/// Messages received before the signal is cancelled are all handled, in
/// order, before the shutdown hook runs; whatever is observed after the
/// cancellation, no further message is handled.
pub proof fn lemma_handled_before_cancellation<M>(msgs: Seq<M>, later: Seq<Event<M>>)
    ensures
        run(Phase::Running, received(msgs) + seq![Event::Cancelled] + later).1
            == handled(msgs) + seq![Action::RunHook] + run(Phase::ShuttingDown, later).1,
        forall|i: int|
            msgs.len() < i < run(Phase::Running, received(msgs) + seq![Event::Cancelled] + later).1.len()
                ==> !(run(Phase::Running, received(msgs) + seq![Event::Cancelled] + later).1[i] is Handle),
{
    lemma_messages_handled_in_order(msgs);
    lemma_run_append(Phase::Running, received(msgs), seq![Event::Cancelled]);
    let c: Seq<Event<M>> = seq![Event::Cancelled];
    assert(run(Phase::Running, c) == (Phase::ShuttingDown, seq![Action::<M>::RunHook])) by {
        assert(c.subrange(1, 1) =~= Seq::<Event<M>>::empty());
        assert(c[0] == Event::<M>::Cancelled);
        assert(run(Phase::ShuttingDown, Seq::<Event<M>>::empty()).1 =~= Seq::<Action<M>>::empty());
        assert(seq![Action::<M>::RunHook] + Seq::<Action<M>>::empty() =~= seq![Action::<M>::RunHook]);
    }
    lemma_run_append(Phase::Running, received(msgs) + c, later);
    lemma_shutting_down_handles_nothing(later);
}

/// Once the shutdown hook has started, no message is handled any more.
pub proof fn lemma_shutting_down_handles_nothing<M>(events: Seq<Event<M>>)
    ensures
        forall|i: int| 0 <= i < run(Phase::ShuttingDown, events).1.len()
            ==> !(run(Phase::ShuttingDown, events).1[i] is Handle),
        run(Phase::ShuttingDown, events).1.len() == events.len(),
    decreases events.len(),
{
    if events.len() > 0 {
        let rest = events.subrange(1, events.len() as int);
        lemma_shutting_down_handles_nothing(rest);
        lemma_terminated_handles_nothing(rest);
    }
}

/// A terminated task does nothing.
pub proof fn lemma_terminated_handles_nothing<M>(events: Seq<Event<M>>)
    ensures
        run(Phase::Terminated, events) == (Phase::Terminated, Seq::new(events.len(), |i: int| Action::<M>::Idle)),
    decreases events.len(),
{
    if events.len() > 0 {
        let rest = events.subrange(1, events.len() as int);
        lemma_terminated_handles_nothing(rest);
        assert(seq![Action::<M>::Idle] + Seq::new(rest.len(), |i: int| Action::<M>::Idle)
            =~= Seq::new(events.len(), |i: int| Action::<M>::Idle));
    }
}

/// When the signal is cancelled before any message is consumed, the first
/// thing the supervisor does is run the shutdown hook; it never handles a
/// message, and it ends the task only after the hook has finished.
pub proof fn lemma_cancel_first_runs_hook<M>(later: Seq<Event<M>>)
    ensures
        run(Phase::Running, seq![Event::Cancelled] + later).1[0] is RunHook,
        forall|i: int| 0 <= i < run(Phase::Running, seq![Event::Cancelled] + later).1.len()
            ==> !(run(Phase::Running, seq![Event::Cancelled] + later).1[i] is Handle),
        forall|i: int| 0 <= i < run(Phase::Running, seq![Event::Cancelled] + later).1.len()
            && run(Phase::Running, seq![Event::Cancelled] + later).1[i] is Exit
            ==> i > 0 && later[i - 1] is HookFinished,
{
    let msgs = Seq::<M>::empty();
    assert(received(msgs) =~= Seq::<Event<M>>::empty());
    assert(received(msgs) + seq![Event::Cancelled] + later =~= seq![Event::Cancelled] + later);
    lemma_handled_before_cancellation(msgs, later);
    lemma_shutting_down_exits_after_hook(later);
}

/// From the shutdown phase the task ends only on the hook's completion.
pub proof fn lemma_shutting_down_exits_after_hook<M>(events: Seq<Event<M>>)
    ensures
        run(Phase::ShuttingDown, events).1.len() == events.len(),
        forall|i: int| 0 <= i < events.len() && run(Phase::ShuttingDown, events).1[i] is Exit
            ==> events[i] is HookFinished,
    decreases events.len(),
{
    if events.len() > 0 {
        let rest = events.subrange(1, events.len() as int);
        lemma_shutting_down_exits_after_hook(rest);
        lemma_terminated_handles_nothing(rest);
        let (p, a) = next(Phase::ShuttingDown, events[0]);
        let r = run(p, rest);
        assert forall|i: int| 0 <= i < events.len() && run(Phase::ShuttingDown, events).1[i] is Exit
            implies events[i] is HookFinished by {
            if i > 0 {
                assert(run(Phase::ShuttingDown, events).1[i] == r.1[i - 1]);
                assert(events[i] == rest[i - 1]);
            }
        }
    }
}

} // verus!
