use vstd::prelude::*;

verus! {

/// Where the run loop stands.
#[derive(Clone, Copy, Debug, PartialEq, Eq, Structural)]
pub enum Phase {
    /// A mirror pass is due.
    Running,
    /// A pass has finished; `elapsed` time units of the interval have gone by.
    WaitingForInterval { elapsed: u64 },
    /// Terminal: no pass will run again.
    Stopped,
}

/// What the driver of the loop does next.
#[derive(Clone, Copy, Debug, PartialEq, Eq, Structural)]
pub enum Step {
    /// Run one mirror pass, then ask again.
    RunPass,
    /// Sleep one time unit, then ask again.
    SleepUnit,
    /// Do the final bookkeeping and end the loop.
    Stop,
}

/// What a pass that hit a filesystem error means for the loop.
#[derive(Clone, Copy, Debug, PartialEq, Eq, Structural)]
pub enum ErrorPolicy {
    /// The first error ends the run.
    FailFast,
    /// The error is logged; the offending entry is skipped and the loop goes on.
    Continue,
}

/// The run loop's decisions: pass, wait out the interval in unit steps, stop.
#[derive(Clone, Copy, Debug, PartialEq, Eq, Structural)]
pub struct Scheduler {
    pub phase: Phase,
    pub interval: u64,
    pub policy: ErrorPolicy,
}

/// The loop's transition on one check of the shutdown flag.
pub open spec fn step_spec(s: Scheduler, stop_requested: bool) -> (Scheduler, Step) {
    if s.phase == Phase::Stopped || stop_requested {
        (Scheduler { phase: Phase::Stopped, ..s }, Step::Stop)
    } else {
        match s.phase {
            Phase::WaitingForInterval { elapsed } => if elapsed < s.interval {
                (Scheduler { phase: Phase::WaitingForInterval { elapsed: (elapsed + 1) as u64 }, ..s }, Step::SleepUnit)
            } else {
                (Scheduler { phase: Phase::WaitingForInterval { elapsed: 0 }, ..s }, Step::RunPass)
            },
            _ => (Scheduler { phase: Phase::WaitingForInterval { elapsed: 0 }, ..s }, Step::RunPass),
        }
    }
}

/// The steps taken when the flag reads `flags[0]`, `flags[1]`, ... at the
/// successive checks.
pub open spec fn trace(s: Scheduler, flags: Seq<bool>) -> Seq<Step>
    decreases flags.len(),
{
    if flags.len() == 0 {
        Seq::empty()
    } else {
        let (next, step) = step_spec(s, flags[0]);
        seq![step].add(trace(next, flags.drop_first()))
    }
}

impl Scheduler {
    /// A loop that starts with a pass and waits `interval` units between passes.
    pub fn new(interval: u64, policy: ErrorPolicy) -> (r: Scheduler)
        ensures
            r.phase == Phase::Running,
            r.interval == interval,
            r.policy == policy,
    {
        Scheduler { phase: Phase::Running, interval, policy }
    }

    /// Takes one check of the shutdown flag and says what to do next.
    pub fn next(&mut self, stop_requested: bool) -> (r: Step)
        ensures
            (*final(self), r) == step_spec(*old(self), stop_requested),
    {
        if self.phase == Phase::Stopped || stop_requested {
            self.phase = Phase::Stopped;
            return Step::Stop;
        }
        match self.phase {
            Phase::WaitingForInterval { elapsed } => {
                if elapsed < self.interval {
                    self.phase = Phase::WaitingForInterval { elapsed: elapsed + 1 };
                    Step::SleepUnit
                } else {
                    self.phase = Phase::WaitingForInterval { elapsed: 0 };
                    Step::RunPass
                }
            },
            _ => {
                self.phase = Phase::WaitingForInterval { elapsed: 0 };
                Step::RunPass
            },
        }
    }

    /// Reports a pass that ended on a filesystem error; under `FailFast` the
    /// loop stops, otherwise it carries on as after any pass.
    pub fn pass_failed(&mut self)
        ensures
            final(self).interval == old(self).interval,
            final(self).policy == old(self).policy,
            final(self).phase == (if old(self).policy == ErrorPolicy::FailFast {
                Phase::Stopped
            } else {
                old(self).phase
            }),
    {
        if self.policy == ErrorPolicy::FailFast {
            self.phase = Phase::Stopped;
        }
    }

    pub fn is_stopped(&self) -> (r: bool)
        ensures
            r == (self.phase == Phase::Stopped),
    {
        self.phase == Phase::Stopped
    }
}

/// A stop request seen while waiting (or at any other check) ends the loop at
/// that very check: no further sleep and no further pass.
pub proof fn lemma_stop_is_prompt(s: Scheduler)
    ensures
        step_spec(s, true).0.phase == Phase::Stopped,
        step_spec(s, true).1 == Step::Stop,
{
}

/// Once stopped, the loop stays stopped whatever the flag reads.
pub proof fn lemma_stopped_is_final(s: Scheduler, stop_requested: bool)
    requires
        s.phase == Phase::Stopped,
    ensures
        step_spec(s, stop_requested) == (s, Step::Stop),
{
}

/// From the first check that sees the stop request on, every step is `Stop`:
/// a request that arrives during a pass is honoured right after it, and no
/// pass runs again.
pub proof fn lemma_no_pass_after_stop(s: Scheduler, flags: Seq<bool>, i: int, j: int)
    requires
        0 <= i <= j < flags.len(),
        flags[i],
    ensures
        trace(s, flags)[j] == Step::Stop,
    decreases flags.len(),
{
    let (next, step) = step_spec(s, flags[0]);
    let rest = flags.drop_first();
    lemma_trace_len(next, rest);
    assert(trace(s, flags) == seq![step].add(trace(next, rest)));
    if j == 0 {
        assert(i == 0);
    } else if i == 0 {
        lemma_all_stop_when_stopped(next, rest, j - 1);
    } else {
        lemma_no_pass_after_stop(next, rest, i - 1, j - 1);
    }
}

proof fn lemma_trace_len(s: Scheduler, flags: Seq<bool>)
    ensures
        trace(s, flags).len() == flags.len(),
    decreases flags.len(),
{
    if flags.len() > 0 {
        let (next, step) = step_spec(s, flags[0]);
        lemma_trace_len(next, flags.drop_first());
    }
}

proof fn lemma_all_stop_when_stopped(s: Scheduler, flags: Seq<bool>, j: int)
    requires
        s.phase == Phase::Stopped,
        0 <= j < flags.len(),
    ensures
        trace(s, flags)[j] == Step::Stop,
    decreases flags.len(),
{
    let (next, step) = step_spec(s, flags[0]);
    lemma_trace_len(next, flags.drop_first());
    assert(trace(s, flags) == seq![step].add(trace(next, flags.drop_first())));
    if j > 0 {
        lemma_all_stop_when_stopped(next, flags.drop_first(), j - 1);
    }
}

} // verus!
