//! The ground station's pilot input: one owned aggregator per input
//! device (keyboard, joystick), each holding its channels, trims and gains,
//! and the combination of the two into a pilot command.
use vstd::prelude::*;
use crate::protocol::{DataT, DroneMode};

verus! {

/// Largest valid channel value.
pub const MAX_VALUE: i32 = 2047;

pub open spec fn sat32(x: int) -> i32 {
    if x < i32::MIN {
        i32::MIN
    } else if x > i32::MAX {
        i32::MAX
    } else {
        x as i32
    }
}

fn sat_add(a: i32, b: i32) -> (r: i32)
    ensures
        r == sat32(a + b),
{
    let s: i64 = a as i64 + b as i64;
    if s < i32::MIN as i64 {
        i32::MIN
    } else if s > i32::MAX as i64 {
        i32::MAX
    } else {
        s as i32
    }
}

/// The input of one device.
#[derive(Debug, Clone)]
pub struct InputState {
    pub mode_request: Option<DroneMode>,
    pub throttle: i32,
    pub roll: i32,
    pub pitch: i32,
    pub yaw: i32,
    pub throttle_trim: i32,
    pub roll_trim: i32,
    pub pitch_trim: i32,
    pub yaw_trim: i32,
    pub yaw_p: i32,
    pub roll_pitch_p1: i32,
    pub roll_pitch_p2: i32,
    pub is_new_mode_request_received: bool,
    pub is_pid_updated: bool,
    pub is_full_pid_updated: bool,
    /// Whether a logging command waits to be sent, and which.
    pub data_logging_state: bool,
    pub data_logging_action: DataT,
}

impl InputState {
    /// Neutral channels, no trims, the given gains.
    pub fn new(yaw_p: i32, roll_pitch_p1: i32, roll_pitch_p2: i32) -> (r: Self)
        ensures
            r.mode_request is None,
            r.throttle == 0 && r.roll == 0 && r.pitch == 0 && r.yaw == 0,
            r.throttle_trim == 0 && r.roll_trim == 0 && r.pitch_trim == 0 && r.yaw_trim == 0,
            r.yaw_p == yaw_p && r.roll_pitch_p1 == roll_pitch_p1 && r.roll_pitch_p2 == roll_pitch_p2,
            !r.is_new_mode_request_received && !r.is_pid_updated && !r.is_full_pid_updated,
            !r.data_logging_state,
            r.data_logging_action == DataT::StopLogReporting,
    {
        InputState {
            mode_request: None,
            throttle: 0,
            roll: 0,
            pitch: 0,
            yaw: 0,
            throttle_trim: 0,
            roll_trim: 0,
            pitch_trim: 0,
            yaw_trim: 0,
            yaw_p,
            roll_pitch_p1,
            roll_pitch_p2,
            is_new_mode_request_received: false,
            is_pid_updated: false,
            is_full_pid_updated: false,
            data_logging_state: false,
            data_logging_action: DataT::StopLogReporting,
        }
    }

    pub fn set_throttle(&mut self, value: i32)
        ensures
            *final(self) == (InputState { throttle: value, ..*old(self) }),
    {
        self.throttle = value;
    }

    /// The throttle with its trim.
    pub fn get_throttle(&self) -> (r: i32)
        ensures
            r == sat32(self.throttle + self.throttle_trim),
    {
        sat_add(self.throttle, self.throttle_trim)
    }

    pub fn set_roll(&mut self, value: i32)
        ensures
            *final(self) == (InputState { roll: value, ..*old(self) }),
    {
        self.roll = value;
    }

    pub fn get_roll(&self) -> (r: i32)
        ensures
            r == sat32(self.roll + self.roll_trim),
    {
        sat_add(self.roll, self.roll_trim)
    }

    pub fn set_pitch(&mut self, value: i32)
        ensures
            *final(self) == (InputState { pitch: value, ..*old(self) }),
    {
        self.pitch = value;
    }

    pub fn get_pitch(&self) -> (r: i32)
        ensures
            r == sat32(self.pitch + self.pitch_trim),
    {
        sat_add(self.pitch, self.pitch_trim)
    }

    pub fn set_yaw(&mut self, value: i32)
        ensures
            *final(self) == (InputState { yaw: value, ..*old(self) }),
    {
        self.yaw = value;
    }

    pub fn get_yaw(&self) -> (r: i32)
        ensures
            r == sat32(self.yaw + self.yaw_trim),
    {
        sat_add(self.yaw, self.yaw_trim)
    }

    pub fn get_yaw_p(&self) -> (r: i32)
        ensures
            r == self.yaw_p,
    {
        self.yaw_p
    }

    pub fn get_full_control_p1(&self) -> (r: i32)
        ensures
            r == self.roll_pitch_p1,
    {
        self.roll_pitch_p1
    }

    pub fn get_full_control_p2(&self) -> (r: i32)
        ensures
            r == self.roll_pitch_p2,
    {
        self.roll_pitch_p2
    }

    /// Takes the pending mode request, leaving none.
    pub fn get_mode_pressed(&mut self) -> (r: Option<DroneMode>)
        ensures
            r == old(self).mode_request,
            *final(self) == (InputState { mode_request: None, ..*old(self) }),
    {
        let val = self.mode_request;
        self.mode_request = None;
        val
    }

    pub fn set_mode_pressed(&mut self, mode: DroneMode)
        ensures
            *final(self) == (InputState { mode_request: Some(mode), ..*old(self) }),
    {
        self.mode_request = Some(mode);
    }
}

/// Clips a value to the valid channel range `[0, 2047]`.
pub fn clip_to_valid_range(x: i32) -> (r: u16)
    ensures
        r == (if x < 0 {
            0
        } else if x > MAX_VALUE {
            MAX_VALUE
        } else {
            x
        }),
{
    if x < 0 {
        0
    } else if x > MAX_VALUE {
        MAX_VALUE as u16
    } else {
        x as u16
    }
}

pub open spec fn clip_spec(x: int) -> u16 {
    if x < 0 {
        0
    } else if x > 2047 {
        2047
    } else {
        x as u16
    }
}

/// The throttle channel: joystick plus keyboard, clipped.
pub fn get_throttle(js: &InputState, kb: &InputState) -> (r: u16)
    ensures
        r == clip_spec(sat32(js.get_throttle_spec() + kb.get_throttle_spec()) as int),
{
    clip_to_valid_range(sat_add(js.get_throttle(), kb.get_throttle()))
}

/// The pitch channel: joystick plus keyboard, clipped.
pub fn get_pitch(js: &InputState, kb: &InputState) -> (r: u16)
    ensures
        r == clip_spec(sat32(js.get_pitch_spec() + kb.get_pitch_spec()) as int),
{
    clip_to_valid_range(sat_add(js.get_pitch(), kb.get_pitch()))
}

/// The roll channel: joystick plus keyboard, clipped.
pub fn get_roll(js: &InputState, kb: &InputState) -> (r: u16)
    ensures
        r == clip_spec(sat32(js.get_roll_spec() + kb.get_roll_spec()) as int),
{
    clip_to_valid_range(sat_add(js.get_roll(), kb.get_roll()))
}

/// The yaw channel: joystick plus keyboard, clipped.
pub fn get_yaw(js: &InputState, kb: &InputState) -> (r: u16)
    ensures
        r == clip_spec(sat32(js.get_yaw_spec() + kb.get_yaw_spec()) as int),
{
    clip_to_valid_range(sat_add(js.get_yaw(), kb.get_yaw()))
}

impl InputState {
    pub open spec fn get_throttle_spec(&self) -> i32 {
        sat32(self.throttle + self.throttle_trim)
    }

    pub open spec fn get_pitch_spec(&self) -> i32 {
        sat32(self.pitch + self.pitch_trim)
    }

    pub open spec fn get_roll_spec(&self) -> i32 {
        sat32(self.roll + self.roll_trim)
    }

    pub open spec fn get_yaw_spec(&self) -> i32 {
        sat32(self.yaw + self.yaw_trim)
    }
}

/// The keyboard's yaw gain.
pub fn get_yaw_p(kb: &InputState) -> (r: i32)
    ensures
        r == kb.yaw_p,
{
    kb.get_yaw_p()
}

/// The keyboard's roll/pitch gain P1.
pub fn get_full_control_p1(kb: &InputState) -> (r: i32)
    ensures
        r == kb.roll_pitch_p1,
{
    kb.get_full_control_p1()
}

/// The keyboard's roll/pitch gain P2.
pub fn get_full_control_p2(kb: &InputState) -> (r: i32)
    ensures
        r == kb.roll_pitch_p2,
{
    kb.get_full_control_p2()
}

/// The pending mode request, the joystick's first (it can only ask for
/// `Panic`); both requests are taken.
pub fn get_mode_pressed(js: &mut InputState, kb: &mut InputState) -> (r: Option<DroneMode>)
    ensures
        r == (if old(js).mode_request is Some {
            old(js).mode_request
        } else {
            old(kb).mode_request
        }),
        *final(js) == (InputState { mode_request: None, ..*old(js) }),
        *final(kb) == (InputState { mode_request: None, ..*old(kb) }),
{
    let j = js.get_mode_pressed();
    let k = kb.get_mode_pressed();
    if j.is_some() {
        j
    } else {
        k
    }
}

/// Records a mode request from the keyboard.
pub fn set_mode_pressed(kb: &mut InputState, mode: DroneMode)
    ensures
        *final(kb) == (InputState { mode_request: Some(mode), ..*old(kb) }),
{
    kb.set_mode_pressed(mode);
}

pub fn increment_lift_trim(kb: &mut InputState)
    ensures
        *final(kb) == (InputState { throttle_trim: sat32(old(kb).throttle_trim + 1), ..*old(kb) }),
{
    kb.throttle_trim = sat_add(kb.throttle_trim, 1);
}

pub fn decrement_lift_trim(kb: &mut InputState)
    ensures
        *final(kb) == (InputState { throttle_trim: sat32(old(kb).throttle_trim - 1), ..*old(kb) }),
{
    kb.throttle_trim = sat_add(kb.throttle_trim, -1);
}

pub fn increment_roll_trim(kb: &mut InputState)
    ensures
        *final(kb) == (InputState { roll_trim: sat32(old(kb).roll_trim + 1), ..*old(kb) }),
{
    kb.roll_trim = sat_add(kb.roll_trim, 1);
}

pub fn decrement_roll_trim(kb: &mut InputState)
    ensures
        *final(kb) == (InputState { roll_trim: sat32(old(kb).roll_trim - 1), ..*old(kb) }),
{
    kb.roll_trim = sat_add(kb.roll_trim, -1);
}

pub fn increment_pitch_trim(kb: &mut InputState)
    ensures
        *final(kb) == (InputState { pitch_trim: sat32(old(kb).pitch_trim + 1), ..*old(kb) }),
{
    kb.pitch_trim = sat_add(kb.pitch_trim, 1);
}

pub fn decrement_pitch_trim(kb: &mut InputState)
    ensures
        *final(kb) == (InputState { pitch_trim: sat32(old(kb).pitch_trim - 1), ..*old(kb) }),
{
    kb.pitch_trim = sat_add(kb.pitch_trim, -1);
}

pub fn increment_yaw_trim(kb: &mut InputState)
    ensures
        *final(kb) == (InputState { yaw_trim: sat32(old(kb).yaw_trim + 1), ..*old(kb) }),
{
    kb.yaw_trim = sat_add(kb.yaw_trim, 1);
}

pub fn decrement_yaw_trim(kb: &mut InputState)
    ensures
        *final(kb) == (InputState { yaw_trim: sat32(old(kb).yaw_trim - 1), ..*old(kb) }),
{
    kb.yaw_trim = sat_add(kb.yaw_trim, -1);
}

pub fn increment_yaw_p(kb: &mut InputState)
    ensures
        *final(kb) == (InputState { yaw_p: sat32(old(kb).yaw_p + 1), ..*old(kb) }),
{
    kb.yaw_p = sat_add(kb.yaw_p, 1);
}

pub fn decrement_yaw_p(kb: &mut InputState)
    ensures
        *final(kb) == (InputState { yaw_p: sat32(old(kb).yaw_p - 1), ..*old(kb) }),
{
    kb.yaw_p = sat_add(kb.yaw_p, -1);
}

pub fn increment_rollpitch_p1(kb: &mut InputState)
    ensures
        *final(kb) == (InputState { roll_pitch_p1: sat32(old(kb).roll_pitch_p1 + 1), ..*old(kb) }),
{
    kb.roll_pitch_p1 = sat_add(kb.roll_pitch_p1, 1);
}

pub fn decrement_rollpitch_p1(kb: &mut InputState)
    ensures
        *final(kb) == (InputState { roll_pitch_p1: sat32(old(kb).roll_pitch_p1 - 1), ..*old(kb) }),
{
    kb.roll_pitch_p1 = sat_add(kb.roll_pitch_p1, -1);
}

pub fn increment_rollpitch_p2(kb: &mut InputState)
    ensures
        *final(kb) == (InputState { roll_pitch_p2: sat32(old(kb).roll_pitch_p2 + 1), ..*old(kb) }),
{
    kb.roll_pitch_p2 = sat_add(kb.roll_pitch_p2, 1);
}

pub fn decrement_rollpitch_p2(kb: &mut InputState)
    ensures
        *final(kb) == (InputState { roll_pitch_p2: sat32(old(kb).roll_pitch_p2 - 1), ..*old(kb) }),
{
    kb.roll_pitch_p2 = sat_add(kb.roll_pitch_p2, -1);
}

/// Clears the four trims.
pub fn reset_keyboard_values(kb: &mut InputState)
    ensures
        *final(kb) == (InputState {
            throttle_trim: 0,
            roll_trim: 0,
            pitch_trim: 0,
            yaw_trim: 0,
            ..*old(kb)
        }),
{
    kb.pitch_trim = 0;
    kb.roll_trim = 0;
    kb.yaw_trim = 0;
    kb.throttle_trim = 0;
}

} // verus!
