//! The race between a transition-finished notification and a fallback timer.
//!
//! Two independent sources may complete: the notification and the timer. The
//! first completion settles the race; whatever arrives later is dropped.
use vstd::prelude::*;

verus! {

/// One completion of either source of the race.
#[derive(Clone, Copy, Debug, PartialEq, Eq, Structural)]
pub enum Signal {
    /// The element reported that its transition has finished.
    TransitionFinished,
    /// The fallback timer ran out.
    TimerFired,
}

/// How a race was settled.
#[derive(Clone, Copy, Debug, PartialEq, Eq, Structural)]
pub enum TransitionWaitOutcome {
    TransitionFired,
    TimedOut,
}

/// The outcome that a signal gives a race it settles.
pub open spec fn outcome_of(signal: Signal) -> TransitionWaitOutcome {
    match signal {
        Signal::TransitionFinished => TransitionWaitOutcome::TransitionFired,
        Signal::TimerFired => TransitionWaitOutcome::TimedOut,
    }
}

/// What a race is, as a value: its outcome once it has one, and whether a
/// listener for the notification is registered.
pub struct RaceView {
    pub outcome: Option<TransitionWaitOutcome>,
    pub listening: bool,
}

impl RaceView {
    /// A race with no outcome and no listener.
    pub open spec fn fresh() -> RaceView {
        RaceView { outcome: None, listening: false }
    }

    /// The race after a signal has been delivered to it.
    pub open spec fn after(self, signal: Signal) -> RaceView {
        match self.outcome {
            None => RaceView { outcome: Some(outcome_of(signal)), listening: self.listening },
            Some(_) => self,
        }
    }

    /// What a delivery of `signal` reports: the outcome if this signal settles
    /// the race, nothing if the race was settled before.
    pub open spec fn effect(self, signal: Signal) -> Option<TransitionWaitOutcome> {
        match self.outcome {
            None => Some(outcome_of(signal)),
            Some(_) => None,
        }
    }

    /// The race after `signals` have been delivered in order.
    pub open spec fn after_all(self, signals: Seq<Signal>) -> RaceView
        decreases signals.len(),
    {
        if signals.len() == 0 {
            self
        } else {
            self.after_all(signals.drop_last()).after(signals.last())
        }
    }

    /// What each delivery reports when `signals` are delivered in order.
    pub open spec fn effects(self, signals: Seq<Signal>) -> Seq<Option<TransitionWaitOutcome>> {
        Seq::new(signals.len(), |i: int| self.after_all(signals.take(i)).effect(signals[i]))
    }
}

/// A race between the notification and the timer, settled at most once.
#[derive(Debug)]
pub struct TransitionRace {
    outcome: Option<TransitionWaitOutcome>,
    listening: bool,
}

impl View for TransitionRace {
    type V = RaceView;

    closed spec fn view(&self) -> RaceView {
        RaceView { outcome: self.outcome, listening: self.listening }
    }
}

impl TransitionRace {
    /// A race that is pending and has no listener registered.
    pub fn new() -> (race: TransitionRace)
        ensures
            race@ == RaceView::fresh(),
    {
        TransitionRace { outcome: None, listening: false }
    }

    /// Records that the listener for the notification is registered.
    pub fn listen(&mut self)
        ensures
            final(self)@ == (RaceView { listening: true, ..old(self)@ }),
    {
        self.listening = true;
    }

    /// Records that the listener for the notification is removed.
    pub fn release(&mut self)
        ensures
            final(self)@ == (RaceView { listening: false, ..old(self)@ }),
    {
        self.listening = false;
    }

    /// Delivers one completion. The first delivery settles the race and
    /// returns its outcome; every later one changes nothing and returns `None`.
    pub fn deliver(&mut self, signal: Signal) -> (settled: Option<TransitionWaitOutcome>)
        ensures
            final(self)@ == old(self)@.after(signal),
            settled == old(self)@.effect(signal),
    {
        match self.outcome {
            None => {
                let outcome = match signal {
                    Signal::TransitionFinished => TransitionWaitOutcome::TransitionFired,
                    Signal::TimerFired => TransitionWaitOutcome::TimedOut,
                };
                self.outcome = Some(outcome);
                Some(outcome)
            },
            Some(_) => None,
        }
    }

    /// The outcome, once the race is settled.
    pub fn outcome(&self) -> (outcome: Option<TransitionWaitOutcome>)
        ensures
            outcome == self@.outcome,
    {
        self.outcome
    }

    /// Whether a listener for the notification is registered.
    pub fn is_listening(&self) -> (listening: bool)
        ensures
            listening == self@.listening,
    {
        self.listening
    }
}

/// A settled race stays as it is: a signal that arrives late reports nothing
/// and changes nothing.
pub proof fn lemma_late_signal_is_dropped(race: RaceView, signal: Signal)
    requires
        race.outcome is Some,
    ensures
        race.after(signal) == race,
        race.effect(signal) is None,
{
}

/// Delivering signals never changes an outcome that is already there, and
/// never touches the listener.
pub proof fn lemma_outcome_is_kept(race: RaceView, signals: Seq<Signal>)
    ensures
        race.after_all(signals).listening == race.listening,
        race.outcome is Some ==> race.after_all(signals) == race,
        race.outcome is None && signals.len() > 0 ==> race.after_all(signals).outcome == Some(
            outcome_of(signals[0]),
        ),
    decreases signals.len(),
{
    if signals.len() > 0 {
        let earlier = signals.drop_last();
        lemma_outcome_is_kept(race, earlier);
        if earlier.len() > 0 {
            assert(earlier[0] == signals[0]);
        }
    }
}

/// A pending race resolves exactly once, whatever is delivered to it and in
/// whatever order: the first signal settles it with that signal's outcome, and
/// no later delivery reports anything.
pub proof fn lemma_race_resolves_exactly_once(race: RaceView, signals: Seq<Signal>)
    requires
        race.outcome is None,
    ensures
        race.effects(signals).len() == signals.len(),
        forall|i: int|
            0 <= i < signals.len() ==> (#[trigger] race.effects(signals)[i] is Some <==> i == 0),
        signals.len() > 0 ==> race.effects(signals)[0] == Some(outcome_of(signals[0])),
        signals.len() > 0 ==> race.after_all(signals).outcome == Some(outcome_of(signals[0])),
{
    assert forall|i: int| 0 <= i < signals.len() implies (#[trigger] race.effects(signals)[i]
        is Some <==> i == 0) by {
        let before = signals.take(i);
        lemma_outcome_is_kept(race, before);
        if i > 0 {
            assert(before.len() > 0);
        } else {
            assert(before.len() == 0);
        }
    }
    if signals.len() > 0 {
        assert(signals.take(0).len() == 0);
        lemma_outcome_is_kept(race, signals);
    }
}

} // verus!
