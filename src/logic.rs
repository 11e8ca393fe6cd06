//! The ground station's periodic decisions: which messages go to the drone
//! at each tick of the ground station's loop.
use vstd::prelude::*;
use crate::input::{InputState, sat32, clip_spec, get_throttle, get_roll, get_pitch, get_yaw};
use crate::protocol::{ControlDT, DataT, DroneMode, Q16, UpdateP1P2DT, UpdatePDT};

verus! {

/// Every how many ticks the pilot command goes out.
pub const RUNNER_PERIOD_COMMAND: u32 = 5;

/// Every how many ticks a keep-alive goes out.
pub const RUNNER_PERIOD_KEEP_ALIVE: u32 = 20;

/// A whole number as `Q16`, saturating.
pub open spec fn q16_of(v: i32) -> Q16 {
    Q16 { bits: sat32(v * 65536) }
}

fn to_q16(v: i32) -> (r: Q16)
    ensures
        r == q16_of(v),
{
    let w: i64 = v as i64 * 65536;
    if w > i32::MAX as i64 {
        Q16 { bits: i32::MAX }
    } else if w < i32::MIN as i64 {
        Q16 { bits: i32::MIN }
    } else {
        Q16 { bits: w as i32 }
    }
}

/// The pilot command from both devices.
pub open spec fn control_of(js: InputState, kb: InputState) -> ControlDT {
    ControlDT {
        lift: clip_spec(sat32(js.get_throttle_spec() + kb.get_throttle_spec()) as int),
        roll: clip_spec(sat32(js.get_roll_spec() + kb.get_roll_spec()) as int),
        pitch: clip_spec(sat32(js.get_pitch_spec() + kb.get_pitch_spec()) as int),
        yaw: clip_spec(sat32(js.get_yaw_spec() + kb.get_yaw_spec()) as int),
    }
}

pub open spec fn command_part(iter: u32, js: InputState, kb: InputState) -> Seq<DataT> {
    if iter % RUNNER_PERIOD_COMMAND == 0 {
        seq![DataT::Control(control_of(js, kb))]
    } else {
        seq![]
    }
}

pub open spec fn keep_alive_part(iter: u32) -> Seq<DataT> {
    if iter % RUNNER_PERIOD_KEEP_ALIVE == 0 {
        seq![DataT::KeepAlive]
    } else {
        seq![]
    }
}

pub open spec fn mode_part(js: InputState, kb: InputState) -> Seq<DataT> {
    let request = if js.mode_request is Some {
        js.mode_request
    } else {
        kb.mode_request
    };
    if kb.is_new_mode_request_received || js.is_new_mode_request_received {
        match request {
            Some(md) => seq![DataT::Mode(md)],
            None => seq![],
        }
    } else {
        seq![]
    }
}

pub open spec fn gains_part(kb: InputState) -> Seq<DataT> {
    let p = if kb.is_pid_updated && kb.yaw_p != 0 {
        seq![DataT::UpdateP(UpdatePDT { p: q16_of(kb.yaw_p) })]
    } else {
        seq![]
    };
    let l = if kb.data_logging_state {
        seq![kb.data_logging_action]
    } else {
        seq![]
    };
    let f = if kb.is_full_pid_updated {
        seq![
            DataT::UpdateP1P2(
                UpdateP1P2DT { p1: q16_of(kb.roll_pitch_p1), p2: q16_of(kb.roll_pitch_p2) },
            ),
        ]
    } else {
        seq![]
    };
    p + l + f
}

/// The messages of ground-station tick `iter`: the pilot command every
/// `RUNNER_PERIOD_COMMAND` ticks, a keep-alive every
/// `RUNNER_PERIOD_KEEP_ALIVE`, then a pending mode request (the
/// joystick's first), the yaw gain when changed and not zero, a pending
/// logging command, and the roll/pitch gains when changed.
pub open spec fn host_messages(iter: u32, js: InputState, kb: InputState) -> Seq<DataT> {
    command_part(iter, js, kb) + keep_alive_part(iter) + mode_part(js, kb) + gains_part(kb)
}

/// The ground station's link state.
pub struct Logic {
    pub mode: DroneMode,
}

impl Logic {
    pub fn default() -> (r: Self)
        ensures
            r.mode == DroneMode::Safe,
    {
        Logic { mode: DroneMode::Safe }
    }

    /// The messages to send at tick `iter_count`; the requests and change
    /// flags they carry are taken from the keyboard (and the mode request
    /// from the joystick too).
    pub fn perform_periodic_tasks(
        &mut self,
        iter_count: u32,
        js: &mut InputState,
        kb: &mut InputState,
    ) -> (r: Vec<DataT>)
        requires
            old(kb).data_logging_state ==> is_logging_command(old(kb).data_logging_action),
        ensures
            r@ == host_messages(iter_count, *old(js), *old(kb)),
            *final(self) == *old(self),
            !final(kb).is_new_mode_request_received || !(old(kb).is_new_mode_request_received
                || old(js).is_new_mode_request_received),
            !final(kb).is_pid_updated,
            !final(kb).is_full_pid_updated,
            !final(kb).data_logging_state,
    {
        let mut out: Vec<DataT> = Vec::new();
        if iter_count % RUNNER_PERIOD_COMMAND == 0 {
            let control = ControlDT {
                lift: get_throttle(js, kb),
                roll: get_roll(js, kb),
                pitch: get_pitch(js, kb),
                yaw: get_yaw(js, kb),
            };
            out.push(DataT::Control(control));
        }
        assert(out@ =~= command_part(iter_count, *old(js), *old(kb)));
        if iter_count % RUNNER_PERIOD_KEEP_ALIVE == 0 {
            out.push(DataT::KeepAlive);
        }
        assert(out@ =~= command_part(iter_count, *old(js), *old(kb)) + keep_alive_part(iter_count));
        push_mode_request(&mut out, js, kb);
        push_gains(&mut out, kb);
        assert(out@ =~= host_messages(iter_count, *old(js), *old(kb)));
        out
    }
}

fn push_mode_request(out: &mut Vec<DataT>, js: &mut InputState, kb: &mut InputState)
    ensures
        final(out)@ == old(out)@ + mode_part(*old(js), *old(kb)),
        gains_part(*final(kb)) == gains_part(*old(kb)),
        !final(kb).is_new_mode_request_received || !(old(kb).is_new_mode_request_received
            || old(js).is_new_mode_request_received),
        final(kb).data_logging_state == old(kb).data_logging_state,
        final(kb).data_logging_action == old(kb).data_logging_action,
{
    if kb.is_new_mode_request_received || js.is_new_mode_request_received {
        match crate::input::get_mode_pressed(js, kb) {
            Some(m) => out.push(DataT::Mode(m)),
            None => {},
        }
        kb.is_new_mode_request_received = false;
    }
    assert(out@ =~= old(out)@ + mode_part(*old(js), *old(kb)));
}

fn push_gains(out: &mut Vec<DataT>, kb: &mut InputState)
    requires
        old(kb).data_logging_state ==> is_logging_command(old(kb).data_logging_action),
    ensures
        final(out)@ == old(out)@ + gains_part(*old(kb)),
        !final(kb).is_pid_updated,
        !final(kb).is_full_pid_updated,
        !final(kb).data_logging_state,
        final(kb).is_new_mode_request_received == old(kb).is_new_mode_request_received,
{
    let ghost start = out@;
    if kb.is_pid_updated {
        let p = kb.yaw_p;
        if p != 0 {
            out.push(DataT::UpdateP(UpdatePDT { p: to_q16(p) }));
        }
        kb.is_pid_updated = false;
    }
    if kb.data_logging_state {
        let a = copy_logging(&kb.data_logging_action);
        out.push(a);
        kb.data_logging_state = false;
    }
    if kb.is_full_pid_updated {
        out.push(
            DataT::UpdateP1P2(
                UpdateP1P2DT { p1: to_q16(kb.roll_pitch_p1), p2: to_q16(kb.roll_pitch_p2) },
            ),
        );
        kb.is_full_pid_updated = false;
    }
    assert(out@ =~= start + gains_part(*old(kb)));
}

/// The four commands that start and stop logging and log reporting.
pub open spec fn is_logging_command(m: DataT) -> bool {
    m is StartLogging || m is StopLogging || m is StartLogReporting || m is StopLogReporting
}

/// A copy of a logging command (the other messages become `Empty`).
fn copy_logging(m: &DataT) -> (r: DataT)
    ensures
        is_logging_command(*m) ==> r == *m,
{
    match m {
        DataT::StartLogging => DataT::StartLogging,
        DataT::StopLogging => DataT::StopLogging,
        DataT::StartLogReporting => DataT::StartLogReporting,
        DataT::StopLogReporting => DataT::StopLogReporting,
        _ => DataT::Empty,
    }
}

} // verus!
