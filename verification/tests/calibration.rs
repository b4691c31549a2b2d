//! The calibration monitor's decisions across a sequence of reports.

use vexlink::calibration::CalibrationMonitor;
use vexlink::calibration::CalibrationProgress;
use vexlink::state::ControllerState;

fn report(active: bool, left: bool, right: bool) -> ControllerState {
    let mut s = ControllerState::default();
    s.cal_active = active;
    s.cal_left = left;
    s.cal_right = right;
    s
}

#[test]
fn calibration_runs_to_completion() {
    let mut monitor = CalibrationMonitor::new();
    assert_eq!(
        monitor.step(&report(true, false, false)),
        CalibrationProgress::InProgress { left_done: false, right_done: false }
    );
    assert_eq!(
        monitor.step(&report(true, true, false)),
        CalibrationProgress::InProgress { left_done: true, right_done: false }
    );
    assert_eq!(monitor.step(&report(true, true, true)), CalibrationProgress::ConfirmRequested);
    assert_eq!(monitor.step(&report(true, true, true)), CalibrationProgress::AwaitingConfirm);
    assert_eq!(monitor.step(&report(false, true, true)), CalibrationProgress::Complete);
}

#[test]
fn completion_needs_a_seen_active_flag() {
    // The very first report with the active flag clear is not a
    // completion: the flag must fall, not merely be absent.
    let mut monitor = CalibrationMonitor::new();
    assert_eq!(
        monitor.step(&report(false, false, false)),
        CalibrationProgress::InProgress { left_done: false, right_done: false }
    );
}

#[test]
fn confirmation_announced_only_once() {
    let mut monitor = CalibrationMonitor::new();
    let both = report(true, true, true);
    assert_eq!(monitor.step(&both), CalibrationProgress::ConfirmRequested);
    assert_eq!(monitor.step(&both), CalibrationProgress::AwaitingConfirm);
    assert_eq!(monitor.step(&both), CalibrationProgress::AwaitingConfirm);
}
