//! Decoding of the fixed-layout state payload into a structured value.

use vstd::prelude::*;

use crate::codec::Protocol;
use crate::codec::spec_be16;

verus! {

/// The state of the handheld device as one report describes it: raw
/// joystick axes (127 is the nominal center), twelve button flags,
/// battery percentage, and the calibration flags of the extended decode.
/// A value exists only for a payload that passed checksum validation and
/// carried the state-report tag; a failed decode yields no value, never
/// a partial one.
#[derive(Debug, Clone, Copy, PartialEq, Eq, Structural)]
pub struct ControllerState {
    pub left_x: u8,
    pub left_y: u8,
    pub right_x: u8,
    pub right_y: u8,
    pub l_up: bool,
    pub l_down: bool,
    pub r_up: bool,
    pub r_down: bool,
    pub e_up: bool,
    pub e_down: bool,
    pub f_up: bool,
    pub f_down: bool,
    pub l3: bool,
    pub r3: bool,
    pub battery: u8,
    pub cal_active: bool,
    pub cal_left: bool,
    pub cal_right: bool,
}

impl Default for ControllerState {
    /// Centered sticks read 0 here as well: the default is the all-zero
    /// record, not a nominal resting pose.
    fn default() -> (r: Self)
        ensures
            r == (ControllerState {
                left_x: 0,
                left_y: 0,
                right_x: 0,
                right_y: 0,
                l_up: false,
                l_down: false,
                r_up: false,
                r_down: false,
                e_up: false,
                e_down: false,
                f_up: false,
                f_down: false,
                l3: false,
                r3: false,
                battery: 0,
                cal_active: false,
                cal_left: false,
                cal_right: false,
            }),
    {
        ControllerState {
            left_x: 0,
            left_y: 0,
            right_x: 0,
            right_y: 0,
            l_up: false,
            l_down: false,
            r_up: false,
            r_down: false,
            e_up: false,
            e_down: false,
            f_up: false,
            f_down: false,
            l3: false,
            r3: false,
            battery: 0,
            cal_active: false,
            cal_left: false,
            cal_right: false,
        }
    }
}

/// The command tag opening every state-report payload.
pub const STATE_REPORT_TAG: u8 = 0x60;

/// Whether a payload is a state report: at least 14 bytes, opened by the
/// state-report tag. Replies to other commands and truncated payloads
/// fail this and decode to no state, which is a normal outcome.
pub open spec fn spec_state_report(p: Seq<u8>) -> bool {
    p.len() >= 14 && p[0] == STATE_REPORT_TAG
}

/// The field layout of a state report. The four axes sit at offsets 1
/// through 4; the button flags are bit positions of the big-endian word
/// at offsets 8 and 9; offset 10 carries the stick-click bits; offset 11
/// the battery percentage. Bits 4 through 6 of the byte at offset 8 are
/// read again as the calibration flags: the firmware packs both
/// meanings into one byte, and the dual reading is preserved as
/// observed on the wire.
pub open spec fn spec_parse_state(p: Seq<u8>) -> ControllerState
    recommends
        spec_state_report(p),
{
    let buttons = spec_be16(p[8], p[9]);
    ControllerState {
        left_x: p[1],
        left_y: p[2],
        right_x: p[3],
        right_y: p[4],
        l_up: (buttons >> 5) & 1 != 0,
        l_down: (buttons >> 4) & 1 != 0,
        r_up: (buttons >> 7) & 1 != 0,
        r_down: (buttons >> 6) & 1 != 0,
        e_up: (buttons >> 3) & 1 != 0,
        e_down: (buttons >> 1) & 1 != 0,
        f_up: (buttons >> 2) & 1 != 0,
        f_down: buttons & 1 != 0,
        l3: p[10] & 0x01 != 0,
        r3: p[10] & 0x02 != 0,
        battery: p[11],
        cal_active: (p[8] >> 4) & 1 != 0,
        cal_left: (p[8] >> 5) & 1 != 0,
        cal_right: (p[8] >> 6) & 1 != 0,
    }
}

impl Protocol {
    /// Decodes a validated payload into a state value, returning nothing
    /// when the payload is not a state report.
    pub fn parse_controller_state(payload: &[u8]) -> (r: Option<ControllerState>)
        ensures
            r is Some <==> spec_state_report(payload@),
            r matches Some(s) ==> s == spec_parse_state(payload@),
    {
        if payload.len() < 14 || payload[0] != STATE_REPORT_TAG {
            return None;
        }
        let buttons: u16 = ((payload[8] as u16) << 8) | (payload[9] as u16);
        let status: u8 = payload[8];
        let extra: u8 = payload[10];
        Some(
            ControllerState {
                left_x: payload[1],
                left_y: payload[2],
                right_x: payload[3],
                right_y: payload[4],
                l_up: (buttons >> 5) & 1 != 0,
                l_down: (buttons >> 4) & 1 != 0,
                r_up: (buttons >> 7) & 1 != 0,
                r_down: (buttons >> 6) & 1 != 0,
                e_up: (buttons >> 3) & 1 != 0,
                e_down: (buttons >> 1) & 1 != 0,
                f_up: (buttons >> 2) & 1 != 0,
                f_down: buttons & 1 != 0,
                l3: extra & 0x01 != 0,
                r3: extra & 0x02 != 0,
                battery: payload[11],
                cal_active: (status >> 4) & 1 != 0,
                cal_left: (status >> 5) & 1 != 0,
                cal_right: (status >> 6) & 1 != 0,
            },
        )
    }
}

} // verus!
