use reveal_sequencer::race::{Signal, TransitionRace, TransitionWaitOutcome};

fn all_sequences(len: usize) -> Vec<Vec<Signal>> {
    let mut sequences: Vec<Vec<Signal>> = vec![Vec::new()];
    for _ in 0..len {
        let mut longer = Vec::new();
        for sequence in &sequences {
            for signal in [Signal::TransitionFinished, Signal::TimerFired] {
                let mut next = sequence.clone();
                next.push(signal);
                longer.push(next);
            }
        }
        sequences = longer;
    }
    sequences
}

#[test]
fn fresh_race_is_pending_and_has_no_listener() {
    let race = TransitionRace::new();
    assert_eq!(race.outcome(), None);
    assert!(!race.is_listening());
}

#[test]
fn immediate_notification_wins_over_long_fallback() {
    let mut race = TransitionRace::new();
    race.listen();
    assert!(race.is_listening());
    assert_eq!(
        race.deliver(Signal::TransitionFinished),
        Some(TransitionWaitOutcome::TransitionFired)
    );
    race.release();
    assert_eq!(race.outcome(), Some(TransitionWaitOutcome::TransitionFired));
    assert!(!race.is_listening());
    // the long fallback runs out much later
    assert_eq!(race.deliver(Signal::TimerFired), None);
    assert_eq!(race.outcome(), Some(TransitionWaitOutcome::TransitionFired));
}

#[test]
fn short_fallback_without_notification_times_out() {
    let mut race = TransitionRace::new();
    race.listen();
    assert_eq!(race.deliver(Signal::TimerFired), Some(TransitionWaitOutcome::TimedOut));
    race.release();
    assert_eq!(race.outcome(), Some(TransitionWaitOutcome::TimedOut));
    assert!(!race.is_listening());
}

#[test]
fn notification_after_fallback_has_no_effect() {
    let mut race = TransitionRace::new();
    race.listen();
    assert_eq!(race.deliver(Signal::TimerFired), Some(TransitionWaitOutcome::TimedOut));
    assert_eq!(race.deliver(Signal::TransitionFinished), None);
    assert_eq!(race.deliver(Signal::TransitionFinished), None);
    assert_eq!(race.outcome(), Some(TransitionWaitOutcome::TimedOut));
    assert!(race.is_listening());
}

#[test]
fn deliveries_do_not_touch_the_listener() {
    let mut race = TransitionRace::new();
    assert_eq!(race.deliver(Signal::TransitionFinished), Some(TransitionWaitOutcome::TransitionFired));
    assert!(!race.is_listening());
    race.listen();
    race.listen();
    assert!(race.is_listening());
    assert_eq!(race.deliver(Signal::TimerFired), None);
    assert!(race.is_listening());
    race.release();
    race.release();
    assert!(!race.is_listening());
    assert_eq!(race.outcome(), Some(TransitionWaitOutcome::TransitionFired));
}

#[test]
fn every_sequence_of_signals_resolves_exactly_once() {
    for len in 1..=5 {
        for sequence in all_sequences(len) {
            let mut race = TransitionRace::new();
            let mut resolutions = Vec::new();
            for signal in &sequence {
                if let Some(outcome) = race.deliver(*signal) {
                    resolutions.push(outcome);
                }
            }
            let expected = match sequence[0] {
                Signal::TransitionFinished => TransitionWaitOutcome::TransitionFired,
                Signal::TimerFired => TransitionWaitOutcome::TimedOut,
            };
            assert_eq!(resolutions, vec![expected]);
            assert_eq!(race.outcome(), Some(expected));
        }
    }
}

#[test]
fn race_without_any_signal_stays_pending() {
    let mut race = TransitionRace::new();
    race.listen();
    assert_eq!(race.outcome(), None);
    race.release();
    assert_eq!(race.outcome(), None);
}
