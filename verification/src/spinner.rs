use vstd::prelude::*;

verus! {

/// What one non-blocking poll of the cancellation signal saw.
#[derive(Clone, Copy, Debug, PartialEq, Eq, Structural)]
pub enum SpinnerPoll {
    /// No signal yet: the fetches are still outstanding.
    Pending,
    /// The one-shot cancellation signal has arrived.
    Cancelled,
}

/// What the indicator does in reaction to one poll.
#[derive(Clone, Copy, Debug, PartialEq, Eq, Structural)]
pub enum SpinnerAction {
    /// Redraw one spinner frame, then sleep one polling interval.
    Tick,
    /// Stop: no further frame is ever drawn.
    Stop,
}

/// The cooperative-cancellation state of the background progress
/// indicator: it ticks until the one-shot signal is seen and never ticks
/// again afterwards. The terminal redraw itself lives with the caller;
/// this state decides, for every poll, whether a frame may be drawn.
pub struct ProgressIndicator {
    /// Whether the cancellation signal has been seen.
    pub cancelled: bool,
    /// How many frames have been drawn.
    pub ticks: u64,
}

impl ProgressIndicator {
    /// A fresh indicator: not yet cancelled, nothing drawn.
    pub fn new() -> (s: Self)
        ensures
            !s.cancelled,
            s.ticks == 0,
    {
        ProgressIndicator { cancelled: false, ticks: 0 }
    }

    /// Reacts to one poll of the signal. The answer is `Tick` exactly
    /// when no cancellation has been seen, now or earlier; seeing the
    /// signal is remembered for good.
    pub fn on_poll(&mut self, poll: SpinnerPoll) -> (action: SpinnerAction)
        requires
            old(self).ticks < u64::MAX,
        ensures
            final(self).cancelled == (old(self).cancelled || poll is Cancelled),
            (action is Tick) == (!old(self).cancelled && poll is Pending),
            action is Tick ==> final(self).ticks == old(self).ticks + 1,
            !(action is Tick) ==> final(self).ticks == old(self).ticks,
    {
        match poll {
            SpinnerPoll::Cancelled => {
                self.cancelled = true;
                SpinnerAction::Stop
            },
            SpinnerPoll::Pending => {
                if self.cancelled {
                    SpinnerAction::Stop
                } else {
                    self.ticks = self.ticks + 1;
                    SpinnerAction::Tick
                }
            },
        }
    }
}

/// How many frames a run over a given poll trace draws: one per pending
/// poll strictly before the first cancellation, none at or after it.
pub open spec fn spec_ticks(polls: Seq<SpinnerPoll>) -> int
    decreases polls.len(),
{
    if polls.len() == 0 {
        0
    } else if polls[0] is Cancelled {
        0
    } else {
        1 + spec_ticks(polls.drop_first())
    }
}

/// Runs the indicator over a trace of polls, stopping at the first
/// `Stop`; returns how many frames were drawn.
pub fn run_indicator(polls: &Vec<SpinnerPoll>) -> (ticks: usize)
    ensures
        ticks == spec_ticks(polls@),
{
    let n = polls.len();
    let mut ind = ProgressIndicator::new();
    let mut i: usize = 0;
    proof {
        assert(polls@.skip(0) =~= polls@);
    }
    while i < n
        invariant
            i <= n,
            n == polls@.len(),
            !ind.cancelled,
            ind.ticks == i,
            spec_ticks(polls@) == i + spec_ticks(polls@.skip(i as int)),
        decreases n - i,
    {
        proof {
            assert(polls@.skip(i as int)[0] == polls@[i as int]);
            assert(polls@.skip(i as int).drop_first() =~= polls@.skip(i as int + 1));
        }
        let action = ind.on_poll(polls[i]);
        match action {
            SpinnerAction::Stop => {
                return i;
            },
            SpinnerAction::Tick => {
                i = i + 1;
            },
        }
    }
    proof {
        assert(polls@.skip(n as int).len() == 0);
    }
    i
}

/// Once cancelled, the indicator stops within one polling interval: over
/// any poll trace, every frame drawn lies strictly before the first poll
/// that saw the signal, so no activity is observable after it.
pub proof fn lemma_no_tick_after_cancel(polls: Seq<SpinnerPoll>, i: int)
    requires
        0 <= i < polls.len(),
        polls[i] is Cancelled,
    ensures
        spec_ticks(polls) <= i,
    decreases i,
{
    if !(polls[0] is Cancelled) && i > 0 {
        lemma_no_tick_after_cancel(polls.drop_first(), i - 1);
    }
}

} // verus!
