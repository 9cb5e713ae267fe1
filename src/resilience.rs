//! Decisions of a self-healing provider stream: a state machine from the
//! outcome of the last outside step to the next one, with capped
//! exponential backoff between reconnect attempts.
use vstd::prelude::*;

verus! {

/// Backoff bounds in milliseconds.
#[derive(Clone, Copy, Debug, PartialEq, Eq, Structural)]
pub struct BackoffPolicy {
    pub floor_ms: u64,
    pub ceiling_ms: u64,
}

impl BackoffPolicy {
    pub open spec fn wf(self) -> bool {
        0 < self.floor_ms <= self.ceiling_ms
    }

    /// One second floor, thirty seconds ceiling.
    pub fn standard() -> (r: BackoffPolicy)
        ensures
            r.floor_ms == 1000 && r.ceiling_ms == 30000,
            r.wf(),
    {
        BackoffPolicy { floor_ms: 1000, ceiling_ms: 30000 }
    }
}

/// Where the stream stands.
#[derive(Clone, Copy, Debug, PartialEq, Eq, Structural)]
pub enum Phase {
    Connecting,
    Streaming,
    Backoff,
}

/// The outcome of the last outside step.
#[derive(Clone, Copy, Debug, PartialEq, Eq, Structural)]
pub enum StreamEvent {
    /// The source opened its stream.
    Opened,
    /// The source failed to open its stream.
    OpenFailed,
    /// The stream produced an event.
    Delivered,
    /// The stream ended or failed.
    Disconnected,
    /// The backoff sleep is over.
    Woke,
}

/// The next outside step to perform.
#[derive(Clone, Copy, Debug, PartialEq, Eq, Structural)]
pub enum Action {
    /// Ask the source to open its stream.
    Open,
    /// Wait for the stream's next event.
    Poll,
    /// Hand the event just received to the consumer, then wait for the next.
    Forward,
    /// Sleep this many milliseconds.
    Sleep(u64),
}

/// Reconnect state of one provider stream.
#[derive(Clone, Copy, Debug, PartialEq, Eq, Structural)]
pub struct Reconnector {
    pub policy: BackoffPolicy,
    pub phase: Phase,
    /// The delay before the next reconnect attempt.
    pub backoff_ms: u64,
}

pub open spec fn pow2(n: nat) -> nat
    decreases n,
{
    if n == 0 {
        1
    } else {
        2 * pow2((n - 1) as nat)
    }
}

pub open spec fn min(a: int, b: int) -> int {
    if a <= b {
        a
    } else {
        b
    }
}

/// The backoff after `n` consecutive disconnects.
pub open spec fn backoff_after(policy: BackoffPolicy, n: nat) -> int {
    min(policy.floor_ms * pow2(n), policy.ceiling_ms as int)
}

/// The state and action that follow `ev` in state `s`.
pub open spec fn next(s: Reconnector, ev: StreamEvent) -> (Reconnector, Action) {
    match ev {
        StreamEvent::Opened => (Reconnector { phase: Phase::Streaming, ..s }, Action::Poll),
        StreamEvent::Delivered => (
            Reconnector { phase: Phase::Streaming, backoff_ms: s.policy.floor_ms, ..s },
            Action::Forward,
        ),
        StreamEvent::OpenFailed | StreamEvent::Disconnected => (
            Reconnector {
                phase: Phase::Backoff,
                backoff_ms: min(2 * s.backoff_ms, s.policy.ceiling_ms as int) as u64,
                ..s
            },
            Action::Sleep(s.backoff_ms),
        ),
        StreamEvent::Woke => (Reconnector { phase: Phase::Connecting, ..s }, Action::Open),
    }
}

impl Reconnector {
    pub open spec fn wf(self) -> bool {
        &&& self.policy.wf()
        &&& self.policy.floor_ms <= self.backoff_ms <= self.policy.ceiling_ms
    }

    /// A stream about to connect for the first time; [`Reconnector::start`]
    /// gives its first action as well.
    pub fn new(policy: BackoffPolicy) -> (r: Reconnector)
        requires
            policy.wf(),
        ensures
            r.wf(),
            r == (Reconnector { policy, phase: Phase::Connecting, backoff_ms: policy.floor_ms }),
    {
        Reconnector { policy, phase: Phase::Connecting, backoff_ms: policy.floor_ms }
    }

    /// A stream about to connect for the first time, with its first action.
    pub fn start(policy: BackoffPolicy) -> (r: (Reconnector, Action))
        requires
            policy.wf(),
        ensures
            r.0.wf(),
            r.0 == (Reconnector { policy, phase: Phase::Connecting, backoff_ms: policy.floor_ms }),
            r.1 == Action::Open,
    {
        (Reconnector::new(policy), Action::Open)
    }

    /// Takes the outcome of the last outside step and decides the next.
    pub fn step(&mut self, ev: StreamEvent) -> (a: Action)
        requires
            old(self).wf(),
        ensures
            final(self).wf(),
            (*final(self), a) == next(*old(self), ev),
    {
        match ev {
            StreamEvent::Opened => {
                self.phase = Phase::Streaming;
                Action::Poll
            },
            StreamEvent::Delivered => {
                self.phase = Phase::Streaming;
                self.backoff_ms = self.policy.floor_ms;
                Action::Forward
            },
            StreamEvent::OpenFailed | StreamEvent::Disconnected => {
                let wait = self.backoff_ms;
                self.phase = Phase::Backoff;
                if wait >= self.policy.ceiling_ms - wait {
                    self.backoff_ms = self.policy.ceiling_ms;
                } else {
                    self.backoff_ms = wait * 2;
                }
                Action::Sleep(wait)
            },
            StreamEvent::Woke => {
                self.phase = Phase::Connecting;
                Action::Open
            },
        }
    }

    pub fn phase(&self) -> (r: Phase)
        ensures
            r == self.phase,
    {
        self.phase
    }

    pub fn backoff_ms(&self) -> (r: u64)
        ensures
            r == self.backoff_ms,
    {
        self.backoff_ms
    }
}


/// The state reached from `s` through the outcomes `evs`, in order.
pub open spec fn run(s: Reconnector, evs: Seq<StreamEvent>) -> Reconnector
    decreases evs.len(),
{
    if evs.len() == 0 {
        s
    } else {
        next(run(s, evs.drop_last()), evs.last()).0
    }
}

pub open spec fn is_disconnect(ev: StreamEvent) -> bool {
    ev is OpenFailed || ev is Disconnected
}

/// How many of `evs` are disconnects.
pub open spec fn disconnects(evs: Seq<StreamEvent>) -> nat
    decreases evs.len(),
{
    if evs.len() == 0 {
        0
    } else {
        disconnects(evs.drop_last()) + if is_disconnect(evs.last()) {
            1nat
        } else {
            0nat
        }
    }
}

/// Every outcome keeps the state well-formed.
pub proof fn lemma_next_wf(s: Reconnector, ev: StreamEvent)
    requires
        s.wf(),
    ensures
        next(s, ev).0.wf(),
{
}

/// Every run of outcomes keeps the state well-formed.
pub proof fn lemma_run_wf(s: Reconnector, evs: Seq<StreamEvent>)
    requires
        s.wf(),
    ensures
        run(s, evs).wf(),
        run(s, evs).policy == s.policy,
    decreases evs.len(),
{
    if evs.len() > 0 {
        lemma_run_wf(s, evs.drop_last());
        lemma_next_wf(run(s, evs.drop_last()), evs.last());
    }
}

proof fn lemma_backoff_doubles(policy: BackoffPolicy, n: nat)
    requires
        policy.wf(),
    ensures
        backoff_after(policy, n + 1) == min(2 * backoff_after(policy, n), policy.ceiling_ms as int),
{
    let f = policy.floor_ms as int;
    let x = pow2(n) as int;
    assert(pow2(n + 1) == 2 * pow2(n));
    assert(f * (2 * x) == 2 * (f * x)) by (nonlinear_arith);
    assert(f * x >= 0) by (nonlinear_arith)
        requires
            f > 0,
            x >= 0,
    ;
}

/// Starting with the backoff at its floor, after a
/// run of outcomes with no delivered event among them, holding `n`
/// disconnects, the backoff is `min(floor * 2^n, ceiling)`.
pub proof fn lemma_backoff_growth(s: Reconnector, evs: Seq<StreamEvent>)
    requires
        s.wf(),
        s.backoff_ms == s.policy.floor_ms,
        forall|i: int| 0 <= i < evs.len() ==> evs[i] != StreamEvent::Delivered,
    ensures
        run(s, evs).backoff_ms == backoff_after(s.policy, disconnects(evs)),
    decreases evs.len(),
{
    if evs.len() == 0 {
        assert(pow2(0) == 1);
        assert(s.policy.floor_ms * pow2(0) == s.policy.floor_ms);
    } else {
        let prev = evs.drop_last();
        assert forall|i: int| 0 <= i < prev.len() implies prev[i] != StreamEvent::Delivered by {
            assert(prev[i] == evs[i]);
        }
        lemma_backoff_growth(s, prev);
        lemma_run_wf(s, prev);
        let t = run(s, prev);
        assert(run(s, evs) == next(t, evs.last()).0);
        if is_disconnect(evs.last()) {
            lemma_backoff_doubles(s.policy, disconnects(prev));
            assert(disconnects(evs) == disconnects(prev) + 1);
        } else {
            assert(disconnects(evs) == disconnects(prev));
        }
    }
}

/// Starting with the backoff at its floor, in a run of outcomes with no
/// delivered event, the `k`-th disconnect asks for a sleep of
/// `min(floor * 2^(k-1), ceiling)`.
pub proof fn lemma_sleep_after_disconnects(s: Reconnector, evs: Seq<StreamEvent>)
    requires
        s.wf(),
        s.backoff_ms == s.policy.floor_ms,
        evs.len() > 0,
        is_disconnect(evs.last()),
        forall|i: int| 0 <= i < evs.len() ==> evs[i] != StreamEvent::Delivered,
    ensures
        disconnects(evs) >= 1,
        next(run(s, evs.drop_last()), evs.last()).1 == Action::Sleep(
            backoff_after(s.policy, (disconnects(evs) - 1) as nat) as u64,
        ),
{
    let prev = evs.drop_last();
    assert forall|i: int| 0 <= i < prev.len() implies prev[i] != StreamEvent::Delivered by {
        assert(prev[i] == evs[i]);
    }
    lemma_backoff_growth(s, prev);
}

/// Whatever came before, once an event has been delivered
/// the backoff is back at its floor.
pub proof fn lemma_backoff_reset(s: Reconnector, evs: Seq<StreamEvent>)
    requires
        s.wf(),
        evs.len() > 0,
        evs.last() == StreamEvent::Delivered,
    ensures
        run(s, evs).backoff_ms == s.policy.floor_ms,
        run(s, evs).phase == Phase::Streaming,
{
    lemma_run_wf(s, evs.drop_last());
}

/// The state after `n` rounds of a source that fails to open, each round a
/// failed attempt followed by the backoff sleep.
pub open spec fn failing_rounds(s: Reconnector, n: nat) -> Reconnector
    decreases n,
{
    if n == 0 {
        s
    } else {
        let t = failing_rounds(s, (n - 1) as nat);
        next(next(t, StreamEvent::OpenFailed).0, StreamEvent::Woke).0
    }
}

/// A stream over a source that always fails to open never gives up: after
/// any number of failed rounds, the next failure asks for a sleep within the
/// policy's bounds, and waking from it asks to open again.
pub proof fn lemma_never_gives_up(s: Reconnector, n: nat)
    requires
        s.wf(),
    ensures
        failing_rounds(s, n).wf(),
        failing_rounds(s, n).policy == s.policy,
        next(failing_rounds(s, n), StreamEvent::OpenFailed).1 == Action::Sleep(
            failing_rounds(s, n).backoff_ms,
        ),
        s.policy.floor_ms <= failing_rounds(s, n).backoff_ms <= s.policy.ceiling_ms,
        next(next(failing_rounds(s, n), StreamEvent::OpenFailed).0, StreamEvent::Woke).1
            == Action::Open,
    decreases n,
{
    if n > 0 {
        lemma_never_gives_up(s, (n - 1) as nat);
    }
}


/// The total time slept in the first `n` rounds of a source that fails to
/// open.
pub open spec fn failing_sleep_total(s: Reconnector, n: nat) -> int
    decreases n,
{
    if n == 0 {
        0
    } else {
        failing_sleep_total(s, (n - 1) as nat) + failing_rounds(s, (n - 1) as nat).backoff_ms
    }
}

/// Against a source that fails to open, attempts are never further apart
/// than the ceiling: the first `n` rounds sleep at most `n * ceiling` in all,
/// and at least `n * floor`.
pub proof fn lemma_attempts_within_ceiling(s: Reconnector, n: nat)
    requires
        s.wf(),
    ensures
        n * s.policy.floor_ms <= failing_sleep_total(s, n) <= n * s.policy.ceiling_ms,
    decreases n,
{
    if n > 0 {
        let m = (n - 1) as nat;
        lemma_attempts_within_ceiling(s, m);
        lemma_never_gives_up(s, m);
        assert(n * s.policy.floor_ms == m * s.policy.floor_ms + s.policy.floor_ms) by (nonlinear_arith)
            requires
                n == m + 1,
        ;
        assert(n * s.policy.ceiling_ms == m * s.policy.ceiling_ms + s.policy.ceiling_ms) by (nonlinear_arith)
            requires
                n == m + 1,
        ;
    }
}

} // verus!
