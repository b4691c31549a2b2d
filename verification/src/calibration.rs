//! The decision kernel of the joystick calibration workflow: what each
//! successive state report means for a calibration in progress. The
//! loop that requests the reports, prints, and sleeps lives with the
//! caller; this module only decides.

use vstd::prelude::*;

use crate::state::ControllerState;

verus! {

/// What one observed state report means for a running calibration.
#[derive(Debug, Clone, Copy, PartialEq, Eq, Structural)]
pub enum CalibrationProgress {
    /// Still rotating: which sticks have finished so far.
    InProgress { left_done: bool, right_done: bool },
    /// Both sticks have just finished; the confirming button press
    /// should now be requested from the user.
    ConfirmRequested,
    /// Both sticks finished earlier; the confirmation is still awaited.
    AwaitingConfirm,
    /// The active flag fell after having been seen set: the device has
    /// accepted the calibration.
    Complete,
}

/// Follows a calibration across successive state reports.
pub struct CalibrationMonitor {
    /// Whether the previous report carried the calibration-active flag.
    pub last_active: bool,
    /// Whether both sticks have already been seen done.
    pub waiting_confirm: bool,
}

/// The decision for one report: a fallen active flag ends the
/// calibration; both sticks done asks for confirmation, announced only
/// the first time; anything else reports per-stick progress.
pub open spec fn spec_calibration_step(
    m: CalibrationMonitor,
    s: ControllerState,
) -> CalibrationProgress {
    if m.last_active && !s.cal_active {
        CalibrationProgress::Complete
    } else if s.cal_left && s.cal_right {
        if m.waiting_confirm {
            CalibrationProgress::AwaitingConfirm
        } else {
            CalibrationProgress::ConfirmRequested
        }
    } else {
        CalibrationProgress::InProgress { left_done: s.cal_left, right_done: s.cal_right }
    }
}

impl CalibrationMonitor {
    /// A monitor that has not yet seen any report.
    pub fn new() -> (r: Self)
        ensures
            !r.last_active,
            !r.waiting_confirm,
    {
        CalibrationMonitor { last_active: false, waiting_confirm: false }
    }

    /// Folds one state report into the monitor and returns the decision
    /// for it.
    pub fn step(&mut self, s: &ControllerState) -> (r: CalibrationProgress)
        ensures
            r == spec_calibration_step(*old(self), *s),
            final(self).last_active == s.cal_active,
            final(self).waiting_confirm == (old(self).waiting_confirm || (s.cal_left
                && s.cal_right)),
    {
        let decision = if self.last_active && !s.cal_active {
            CalibrationProgress::Complete
        } else if s.cal_left && s.cal_right {
            if self.waiting_confirm {
                CalibrationProgress::AwaitingConfirm
            } else {
                CalibrationProgress::ConfirmRequested
            }
        } else {
            CalibrationProgress::InProgress { left_done: s.cal_left, right_done: s.cal_right }
        };
        if s.cal_left && s.cal_right {
            self.waiting_confirm = true;
        }
        self.last_active = s.cal_active;
        decision
    }
}

} // verus!
