use membench::trial::{count_measured_trials, Trial, TrialController};

#[test]
fn three_warmups_two_repetitions_emit_exactly_two() {
    let mut ctl = TrialController::new(3, 2);
    let mut measured = 0usize;
    let mut total = 0usize;
    while let Some(t) = ctl.next_trial() {
        total += 1;
        if t.measured {
            measured += 1;
        }
    }
    assert_eq!(total, 5);
    assert_eq!(measured, 2);
}

#[test]
fn trials_come_in_order_with_warmups_first() {
    let mut ctl = TrialController::new(2, 1);
    assert_eq!(
        ctl.next_trial(),
        Some(Trial { index: 0, measured: false })
    );
    assert_eq!(
        ctl.next_trial(),
        Some(Trial { index: 1, measured: false })
    );
    assert_eq!(
        ctl.next_trial(),
        Some(Trial { index: 2, measured: true })
    );
    assert_eq!(ctl.next_trial(), None);
}

#[test]
fn measured_trial_counts_match_the_repetitions() {
    assert_eq!(count_measured_trials(3, 2), 2);
    assert_eq!(count_measured_trials(0, 4), 4);
    assert_eq!(count_measured_trials(5, 0), 0);
}
