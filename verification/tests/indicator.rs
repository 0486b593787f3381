use story::spinner::{run_indicator, ProgressIndicator, SpinnerAction, SpinnerPoll};

#[test]
fn indicator_ticks_until_cancelled() {
    let polls = vec![
        SpinnerPoll::Pending,
        SpinnerPoll::Pending,
        SpinnerPoll::Pending,
        SpinnerPoll::Cancelled,
    ];
    assert_eq!(run_indicator(&polls), 3);
}

#[test]
fn no_tick_at_or_after_the_cancellation_poll() {
    // Whatever follows the signal, nothing after it is drawn.
    let polls = vec![
        SpinnerPoll::Pending,
        SpinnerPoll::Cancelled,
        SpinnerPoll::Pending,
        SpinnerPoll::Pending,
    ];
    assert_eq!(run_indicator(&polls), 1);
}

#[test]
fn immediate_cancellation_draws_nothing() {
    let polls = vec![SpinnerPoll::Cancelled];
    assert_eq!(run_indicator(&polls), 0);
}

#[test]
fn without_a_signal_the_indicator_keeps_running() {
    // The signal must be sent exactly once; a trace that never carries it
    // keeps the indicator ticking to the end.
    let polls = vec![SpinnerPoll::Pending; 5];
    assert_eq!(run_indicator(&polls), 5);
}

#[test]
fn a_seen_signal_is_remembered() {
    let mut ind = ProgressIndicator::new();
    assert_eq!(ind.on_poll(SpinnerPoll::Pending), SpinnerAction::Tick);
    assert_eq!(ind.on_poll(SpinnerPoll::Cancelled), SpinnerAction::Stop);
    // Even a pending poll afterwards draws nothing more.
    assert_eq!(ind.on_poll(SpinnerPoll::Pending), SpinnerAction::Stop);
    assert_eq!(ind.ticks, 1);
}
