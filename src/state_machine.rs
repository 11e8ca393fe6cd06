//! The flight modes and the per-tick dispatcher.
//!
//! Each mode reads the messages waiting in the pipe, drives the motors and
//! names the mode to continue in. When that differs from the current mode
//! the dispatcher switches, reports the new mode and runs the new mode's
//! step in the same tick.
use vstd::prelude::*;
use crate::sensors::{filtered, corrected_accel, corrected_gyro};
use crate::drone::{
    reported, COM_BUF_SIZE, extends, lemma_extends_refl, lemma_extends_trans, lemma_sent_extends, lemma_noted_extends,
    read_from, lemma_read_unique, noted, DroneState, FlashError, sent, Note, CalibrationSample, YawPitchRoll, started_logging,
    stopped_logging, started_log_report, stopped_log_report,
};
use crate::io::extract;
use crate::motor_control::{motor_mapping, motor_map, in_bounds};
use crate::controller::{
    q_sub, yaw_response, dmp_attitude_response, raw_yaw_response, raw_attitude_response,
    yaw_control_dmp, roll_control_dmp, pitch_control_dmp, yaw_control_raw, roll_control_raw,
    pitch_control_raw,
};
use crate::protocol::{
    ControlDT, DataT, DroneMode, HealthDT, MotorsDT, UpdateP1P2DT, UpdatePDT, WarningDT, encoding,
};

verus! {

/// Half width of the band around 1024 in which roll, pitch and yaw count as
/// neutral.
pub const DEAD_MARGIN: u16 = 50;

/// Neutral controls: no lift, roll, pitch and yaw within `DEAD_MARGIN` of
/// 1024.
pub open spec fn neutral(c: ControlDT) -> bool {
    &&& c.lift == 0
    &&& 974 <= c.roll <= 1074
    &&& 974 <= c.pitch <= 1074
    &&& 974 <= c.yaw <= 1074
}

pub fn is_control_neutral(ctrl: ControlDT) -> (r: bool)
    ensures
        r == neutral(ctrl),
{
    let upper: u16 = 1024 + DEAD_MARGIN;
    let lower: u16 = 1024 - DEAD_MARGIN;
    if ctrl.lift > 0 {
        return false;
    }
    if ctrl.roll > upper || ctrl.roll < lower {
        return false;
    }
    if ctrl.pitch > upper || ctrl.pitch < lower {
        return false;
    }
    if ctrl.yaw > upper || ctrl.yaw < lower {
        return false;
    }
    true
}

pub fn are_motors_zero(values: [u16; 4]) -> (r: bool)
    ensures
        r == (forall|i: int| 0 <= i < 4 ==> #[trigger] values@[i] == 0),
{
    let mut i: usize = 0;
    while i < 4
        invariant
            i <= 4,
            forall|j: int| 0 <= j < i ==> #[trigger] values@[j] == 0,
        decreases 4 - i,
    {
        if values[i] != 0 {
            return false;
        }
        i = i + 1;
    }
    true
}

/// One motor value lowered by `reduction`, stopping at 0.
pub open spec fn lowered(v: u16, reduction: u16) -> u16 {
    if v > reduction {
        (v - reduction) as u16
    } else {
        0
    }
}

/// Lowers every motor value by `reduction`, stopping at 0.
pub fn decrease_motors(values: [u16; 4], reduction: u16) -> (r: [u16; 4])
    ensures
        forall|i: int| 0 <= i < 4 ==> #[trigger] r@[i] == lowered(values@[i], reduction),
{
    let mut new: [u16; 4] = values;
    let mut i: usize = 0;
    while i < 4
        invariant
            i <= 4,
            forall|j: int| 0 <= j < i ==> #[trigger] new@[j] == lowered(values@[j], reduction),
            forall|j: int| i <= j < 4 ==> #[trigger] new@[j] == values@[j],
        decreases 4 - i,
    {
        let v = new[i];
        new[i] = if v > reduction {
            v - reduction
        } else {
            0
        };
        i = i + 1;
    }
    new
}

/// Motor values after `k` ticks of panic descent.
pub open spec fn descended(v: u16, reduction: u16, k: nat) -> u16
    decreases k,
{
    if k == 0 {
        v
    } else {
        lowered(descended(v, reduction, (k - 1) as nat), reduction)
    }
}

/// Panic descent stops every motor within `ceil(v / reduction)` ticks: with
/// the default reduction of 2, a motor at 800 reaches 0 within 400 ticks.
pub proof fn lemma_panic_descent(v: u16, reduction: u16, k: nat)
    requires
        reduction > 0,
        k * reduction >= v,
    ensures
        descended(v, reduction, k) == 0,
    decreases k,
{
    if k > 0 {
        lemma_descent_step(v, reduction, k);
    }
}

/// With the default reduction of 2, a motor at most at 800 is off after
/// 400 ticks of panic descent, still running before `ceil(v / 2)` ticks,
/// and never rises from one tick to the next.
pub proof fn lemma_panic_descent_default(v: u16, k: nat)
    requires
        v <= 800,
    ensures
        k >= 400 ==> descended(v, 2, k) == 0,
        2 * k < v ==> descended(v, 2, k) != 0,
        descended(v, 2, k + 1) <= descended(v, 2, k),
{
    lemma_descent_step(v, 2, k);
    lemma_descent_step(v, 2, k + 1);
    assert(k >= 400 ==> k * 2 >= 800) by (nonlinear_arith);
    assert(k * 2 == 2 * k) by (nonlinear_arith);
    assert((k + 1) * 2 == k * 2 + 2) by (nonlinear_arith);
}

/// After `k` ticks of panic descent a motor stands at `v - k * reduction`,
/// or 0 once that is not positive: it is still running before
/// `ceil(v / reduction)` ticks and never rises.
pub proof fn lemma_descent_step(v: u16, reduction: u16, k: nat)
    requires
        reduction > 0,
    ensures
        descended(v, reduction, k) as int == if v as int - k * reduction > 0 {
            v as int - k * reduction
        } else {
            0
        },
    decreases k,
{
    if k > 0 {
        let j = (k - 1) as nat;
        lemma_descent_step(v, reduction, j);
        assert(j * reduction + reduction == k * reduction) by (nonlinear_arith)
            requires
                j + 1 == k,
        ;
        let x = descended(v, reduction, j);
        assert(descended(v, reduction, k) == lowered(x, reduction));
        if x > reduction {
            assert(x as int == v as int - j * reduction);
        } else {
            assert(v as int - j * reduction <= reduction);
        }
    } else {
        assert(k * reduction == 0) by (nonlinear_arith)
            requires
                k == 0,
        ;
    }
}

/// What a mode's message handler decides: the mode to continue in, and
/// whether to stop reading this tick.
pub type Flow = (DroneMode, bool);

/// The fields that message handling leaves alone.
pub open spec fn same_flight(a: DroneState, b: DroneState) -> bool {
    &&& a.mode == b.mode
    &&& a.pipe == b.pipe
    &&& a.motor_command == b.motor_command
    &&& a.config == b.config
    &&& a.debug_info == b.debug_info
    &&& a.calibrated_data == b.calibrated_data
    &&& a.sensors_dmp == b.sensors_dmp
    &&& a.sensors_raw == b.sensors_raw
}

pub struct SafeMode;

impl SafeMode {
    pub fn get_mode() -> (r: DroneMode)
        ensures
            r == DroneMode::Safe,
    {
        DroneMode::Safe
    }

    /// Handles one message in `Safe` mode. A mode change needs neutral
    /// controls, and a sensor-driven mode a calibration; otherwise a
    /// warning goes out and the mode stays.
    /// `eof` is what flash address 0 holds, for a request to report the
    /// log.
    pub fn handle_message(
        state: &mut DroneState,
        msg: DataT,
        eof: Result<[u8; 4], FlashError>,
    ) -> (r: Flow)
        requires
            old(state).wf(),
            msg.wf(),
        ensures
            final(state).wf(),
            same_flight(*final(state), *old(state)),
            extends(final(state).outbox@, old(state).outbox@),
            match msg {
                DataT::Control(c) => r == (DroneMode::Safe, false) && *final(state) == (DroneState {
                    received_command: c,
                    ..*old(state)
                }),
                DataT::Mode(m) => if m == DroneMode::Panic {
                    r == (DroneMode::Panic, false) && *final(state) == *old(state)
                } else if !neutral(old(state).received_command) {
                    r == (DroneMode::Safe, true) && final(state).outbox@ == sent(
                        old(state).outbox@,
                        DataT::Warning(WarningDT::ControlNotNeutral),
                    ) && *final(state) == (DroneState { outbox: final(state).outbox, ..*old(state) })
                } else if m == DroneMode::Manual || m == DroneMode::Calibrate {
                    r == (m, false) && *final(state) == *old(state)
                } else if m == DroneMode::Safe {
                    r == (DroneMode::Safe, false) && *final(state) == *old(state)
                } else if old(state).calibrated_data.is_calibrated {
                    r == (m, false) && *final(state) == *old(state)
                } else {
                    r == (DroneMode::Safe, false) && final(state).outbox@ == sent(
                        old(state).outbox@,
                        DataT::Warning(WarningDT::SensorNotCalibrated),
                    ) && *final(state) == (DroneState { outbox: final(state).outbox, ..*old(state) })
                },
                DataT::KeepAlive => r == (DroneMode::Safe, false) && *final(state) == (DroneState {
                    ticks_since_last_ka: 0,
                    ..*old(state)
                }),
                DataT::Empty => r == (DroneMode::Safe, true) && *final(state) == *old(state),
                DataT::StartLogging => r == (DroneMode::Safe, false) && started_logging(
                    *old(state),
                    *final(state),
                ),
                DataT::StopLogging => r == (DroneMode::Safe, false) && stopped_logging(
                    *old(state),
                    *final(state),
                ),
                DataT::StartLogReporting => r == (DroneMode::Safe, false) && started_log_report(
                    *old(state),
                    *final(state),
                    eof,
                ),
                DataT::StopLogReporting => r == (DroneMode::Safe, false) && stopped_log_report(
                    *old(state),
                    *final(state),
                ),
                _ => r == (DroneMode::Safe, false) && *final(state) == *old(state),
            },
    {
        proof {
            let o = state.outbox@;
            lemma_extends_refl(o);
            lemma_sent_extends(o, DataT::Warning(WarningDT::ControlNotNeutral));
            lemma_sent_extends(o, DataT::Warning(WarningDT::SensorNotCalibrated));
            lemma_noted_extends(o, Note::LogStart);
            lemma_noted_extends(o, Note::LogStop);
            lemma_noted_extends(o, Note::LogReportStart);
            let o1 = noted(o, Note::LogReportStartFailed);
            lemma_noted_extends(o, Note::LogReportStartFailed);
            lemma_noted_extends(o1, Note::LogReportStart);
            lemma_extends_trans(noted(o1, Note::LogReportStart), o1, o);
            let o2 = sent(o, DataT::StopLogReporting);
            lemma_sent_extends(o, DataT::StopLogReporting);
            lemma_noted_extends(o2, Note::LogReportStop);
            lemma_extends_trans(noted(o2, Note::LogReportStop), o2, o);
        }
        match msg {
            DataT::Control(c) => {
                state.set_cc(c);
                (DroneMode::Safe, false)
            },
            DataT::Mode(m) => {
                if m == DroneMode::Panic {
                    (DroneMode::Panic, false)
                } else if !is_control_neutral(state.get_cc()) {
                    state.send_data(DataT::Warning(WarningDT::ControlNotNeutral));
                    (DroneMode::Safe, true)
                } else if m == DroneMode::Manual || m == DroneMode::Calibrate {
                    (m, false)
                } else if m == DroneMode::Safe {
                    (DroneMode::Safe, false)
                } else if state.calibrated_data.is_calibrated() {
                    (m, false)
                } else {
                    state.send_data(DataT::Warning(WarningDT::SensorNotCalibrated));
                    (DroneMode::Safe, false)
                }
            },
            DataT::KeepAlive => {
                state.got_keep_alive();
                (DroneMode::Safe, false)
            },
            DataT::StartLogging => {
                state.start_logging();
                (DroneMode::Safe, false)
            },
            DataT::StopLogging => {
                state.stop_logging();
                (DroneMode::Safe, false)
            },
            DataT::StartLogReporting => {
                state.log_report_start(eof);
                (DroneMode::Safe, false)
            },
            DataT::StopLogReporting => {
                state.log_report_stop();
                (DroneMode::Safe, false)
            },
            DataT::Empty => (DroneMode::Safe, true),
            _ => (DroneMode::Safe, false),
        }
    }
}

/// Handles one message in a flying mode (`Manual`, `YawControl`,
/// `FullControl`, `RawMode`): controls are stored, a request for `Safe` or
/// `Panic` leads to `Panic`, and gain updates are taken where the mode
/// accepts them and echoed back.
pub fn flying_handle_message(
    state: &mut DroneState,
    msg: DataT,
    current: DroneMode,
    accepts_p: bool,
    accepts_p1p2: bool,
) -> (r: Flow)
    requires
        old(state).wf(),
        msg.wf(),
    ensures
        final(state).wf(),
        same_flight(*final(state), *old(state)),
        extends(final(state).outbox@, old(state).outbox@),
        match msg {
            DataT::Control(c) => r == (current, false) && *final(state) == (DroneState {
                received_command: c,
                ..*old(state)
            }),
            DataT::Mode(m) => if m == DroneMode::Safe || m == DroneMode::Panic {
                r == (DroneMode::Panic, true) && *final(state) == *old(state)
            } else {
                r == (current, false) && *final(state) == *old(state)
            },
            DataT::UpdateP(u) => r == (current, false) && if accepts_p {
                final(state).outbox@ == sent(old(state).outbox@, DataT::UpdateP(u)) && *final(state) == (DroneState { p: u.p, outbox: final(state).outbox, ..*old(state) })
            } else {
                *final(state) == *old(state)
            },
            DataT::UpdateP1P2(u) => r == (current, false) && if accepts_p1p2 {
                final(state).outbox@ == sent(old(state).outbox@, DataT::UpdateP1P2(u)) && *final(state) == (DroneState {
                    p1: u.p1,
                    p2: u.p2,
                    outbox: final(state).outbox,
                    ..*old(state)
                })
            } else {
                *final(state) == *old(state)
            },
            DataT::KeepAlive => r == (current, false) && *final(state) == (DroneState {
                ticks_since_last_ka: 0,
                ..*old(state)
            }),
            DataT::Empty => r == (current, true) && *final(state) == *old(state),
            _ => r == (current, false) && *final(state) == *old(state),
        },
{
    proof {
        lemma_extends_refl(state.outbox@);
        if let DataT::UpdateP(u) = msg {
            lemma_sent_extends(state.outbox@, DataT::UpdateP(u));
        }
        if let DataT::UpdateP1P2(u) = msg {
            lemma_sent_extends(state.outbox@, DataT::UpdateP1P2(u));
        }
    }
    match msg {
        DataT::Control(c) => {
            state.set_cc(c);
            (current, false)
        },
        DataT::Mode(m) => {
            if m == DroneMode::Safe || m == DroneMode::Panic {
                (DroneMode::Panic, true)
            } else {
                (current, false)
            }
        },
        DataT::UpdateP(u) => {
            if accepts_p {
                state.p = u.p;
                state.send_data(DataT::UpdateP(UpdatePDT { p: state.p }));
            }
            (current, false)
        },
        DataT::UpdateP1P2(u) => {
            if accepts_p1p2 {
                state.p1 = u.p1;
                state.p2 = u.p2;
                state.send_data(DataT::UpdateP1P2(UpdateP1P2DT { p1: state.p1, p2: state.p2 }));
            }
            (current, false)
        },
        DataT::KeepAlive => {
            state.got_keep_alive();
            (current, false)
        },
        DataT::Empty => (current, true),
        _ => (current, false),
    }
}


pub open spec fn is_sensor_mode(m: DroneMode) -> bool {
    m == DroneMode::YawControl || m == DroneMode::FullControl || m == DroneMode::RawMode
}

/// The bytes left after the next read of the pipe.
pub open spec fn after_read(p: Seq<u8>) -> Seq<u8> {
    extract(p, COM_BUF_SIZE as nat).1
}

/// Some read of the bytes left from `a` on gave `m` and left `rest`.
pub open spec fn read_since(a: DroneState, rest: Seq<u8>, m: DataT) -> bool {
    exists|p: Seq<u8>| p.len() <= a.pipe@.len() && #[trigger] read_from(p, rest, m)
}

/// What reading the input in `Safe` does, from state `a` to state `b`,
/// deciding the mode `r`. Messages are read and handled as
/// `SafeMode::handle_message` says until a message asks to stop (no frame
/// left, or a refused transition) or names another mode. So:
/// - a change of mode was asked for by the last message read, with neutral
///   controls (but for `Panic`) and a calibration for the sensor modes;
/// - staying in `Safe` follows a read that found no message, or a refusal
///   for controls that are not neutral, whose warning was the last frame
///   sent;
/// - the first message read decides at once when it is `Empty`, a request
///   for `Panic`, a request refused for controls that are not neutral, or a
///   granted request; a request refused for a missing calibration sends its
///   warning first.
pub open spec fn safe_input(a: DroneState, b: DroneState, r: DroneMode) -> bool {
    let first = after_read(a.pipe@);
    &&& b.wf()
    &&& same_reading(b, a)
    &&& extends(b.outbox@, a.outbox@)
    &&& (r != DroneMode::Safe ==> b.pipe@.len() < a.pipe@.len())
    &&& (r != DroneMode::Safe ==> read_since(a, b.pipe@, DataT::Mode(r)))
    &&& (r != DroneMode::Safe && r != DroneMode::Panic ==> neutral(b.received_command))
    &&& (is_sensor_mode(r) ==> b.calibrated_data.is_calibrated)
    &&& (r == DroneMode::Safe ==> read_since(a, b.pipe@, DataT::Empty) || (!neutral(
        b.received_command,
    ) && exists|prev: Seq<u8>|
        b.outbox@ == #[trigger] sent(prev, DataT::Warning(WarningDT::ControlNotNeutral))))
    &&& (read_from(a.pipe@, first, DataT::Empty) ==> r == DroneMode::Safe && b == (DroneState {
        pipe: b.pipe,
        outbox: b.outbox,
        ..a
    }))
    &&& (read_from(a.pipe@, first, DataT::Mode(DroneMode::Panic)) ==> r == DroneMode::Panic
        && b.pipe@ == first && b == (DroneState { pipe: b.pipe, ..a }))
    &&& (forall|md: DroneMode|
        #[trigger] read_from(a.pipe@, first, DataT::Mode(md)) && md != DroneMode::Panic
            && !neutral(a.received_command) ==> r == DroneMode::Safe && b.pipe@ == first
            && b.outbox@ == sent(a.outbox@, DataT::Warning(WarningDT::ControlNotNeutral)) && b == (
        DroneState { pipe: b.pipe, outbox: b.outbox, ..a }))
    &&& (forall|md: DroneMode|
        #[trigger] read_from(a.pipe@, first, DataT::Mode(md)) && neutral(a.received_command) && (
        md == DroneMode::Manual || md == DroneMode::Calibrate || (is_sensor_mode(md)
            && a.calibrated_data.is_calibrated)) ==> r == md && b.pipe@ == first && b == (
        DroneState { pipe: b.pipe, ..a }))
    &&& (forall|md: DroneMode|
        #[trigger] read_from(a.pipe@, first, DataT::Mode(md)) && neutral(a.received_command)
            && is_sensor_mode(md) && !a.calibrated_data.is_calibrated ==> extends(
            b.outbox@,
            sent(a.outbox@, DataT::Warning(WarningDT::SensorNotCalibrated)),
        ))
    &&& (read_from(a.pipe@, first, DataT::KeepAlive) ==> b.ticks_since_last_ka == 0)
    &&& (read_from(a.pipe@, first, DataT::KeepAlive) && read_from(first, after_read(first), DataT::Empty)
        ==> r == DroneMode::Safe && b.pipe@ == after_read(first))
}

/// The facts one read-and-handle step of the `Safe` input loop leaves.
pub open spec fn safe_progress(
    a: DroneState,
    s: DroneState,
    ret: DroneMode,
    exit: bool,
    last: Seq<u8>,
) -> bool {
    &&& s.wf()
    &&& same_reading(s, a)
    &&& extends(s.outbox@, a.outbox@)
    &&& last.len() <= a.pipe@.len()
    &&& (ret != DroneMode::Safe ==> s.pipe@.len() < a.pipe@.len())
    &&& (ret != DroneMode::Safe ==> read_from(last, s.pipe@, DataT::Mode(ret)))
    &&& (ret != DroneMode::Safe && ret != DroneMode::Panic ==> neutral(s.received_command))
    &&& (is_sensor_mode(ret) ==> s.calibrated_data.is_calibrated)
    &&& (exit && ret == DroneMode::Safe ==> read_from(last, s.pipe@, DataT::Empty) || (!neutral(
        s.received_command,
    ) && exists|prev: Seq<u8>|
        s.outbox@ == #[trigger] sent(prev, DataT::Warning(WarningDT::ControlNotNeutral))))
}

/// One read-and-handle step of the `Safe` input loop.
fn safe_step(state: &mut DroneState, eof: Result<[u8; 4], FlashError>, Ghost(a): Ghost<DroneState>) -> (r: (Flow, Ghost<DataT>))
    requires
        old(state).wf(),
        same_reading(*old(state), a),
        extends(old(state).outbox@, a.outbox@),
    ensures
        safe_progress(a, *final(state), r.0.0, r.0.1, old(state).pipe@),
        extends(final(state).outbox@, old(state).outbox@),
        !r.0.1 ==> final(state).pipe@.len() < old(state).pipe@.len(),
        final(state).pipe@.len() <= old(state).pipe@.len(),
        final(state).pipe@ == after_read(old(state).pipe@),
        r.1@ == DataT::KeepAlive ==> final(state).ticks_since_last_ka == 0 && r.0 == (DroneMode::Safe, false),
        old(state).ticks_since_last_ka == 0 ==> final(state).ticks_since_last_ka == 0,
        ({
            let msg = r.1@;
            &&& read_from(old(state).pipe@, after_read(old(state).pipe@), msg)
            &&& {
                let s1 = DroneState { pipe: final(state).pipe, outbox: final(state).outbox, ..*old(state) };
                &&& (msg == DataT::Empty ==> r.0 == (DroneMode::Safe, true) && *final(state) == s1)
                &&& (msg == DataT::Mode(DroneMode::Panic) ==> r.0 == (DroneMode::Panic, false)
                    && *final(state) == (DroneState { pipe: final(state).pipe, ..*old(state) }))
                &&& match msg {
                    DataT::Mode(md) => {
                        &&& (md != DroneMode::Panic && !neutral(old(state).received_command) ==> r.0
                            == (DroneMode::Safe, true) && final(state).outbox@ == sent(
                            old(state).outbox@,
                            DataT::Warning(WarningDT::ControlNotNeutral),
                        ) && *final(state) == s1)
                        &&& (neutral(old(state).received_command) && (md == DroneMode::Manual || md
                            == DroneMode::Calibrate || (is_sensor_mode(md)
                            && old(state).calibrated_data.is_calibrated)) ==> r.0 == (md, false)
                            && *final(state) == (DroneState { pipe: final(state).pipe, ..*old(state) }))
                        &&& (neutral(old(state).received_command) && is_sensor_mode(md)
                            && !old(state).calibrated_data.is_calibrated ==> r.0 == (DroneMode::Safe, false)
                            && final(state).outbox@ == sent(
                            old(state).outbox@,
                            DataT::Warning(WarningDT::SensorNotCalibrated),
                        ))
                    },
                    _ => true,
                }
            }
        }),
{
    let ghost s0 = *state;
    let msg = state.read_data();
    let ghost s_read = *state;
    let (m, e) = SafeMode::handle_message(state, msg, eof);
    proof {
        lemma_extends_trans(state.outbox@, s_read.outbox@, s0.outbox@);
        lemma_extends_trans(state.outbox@, s0.outbox@, a.outbox@);
        if e && m == DroneMode::Safe && msg != DataT::Empty {
            assert(state.outbox@ == sent(
                s_read.outbox@,
                DataT::Warning(WarningDT::ControlNotNeutral),
            ));
        }
        assert(read_from(s0.pipe@, after_read(s0.pipe@), msg));
        lemma_read_unique(s0.pipe@, after_read(s0.pipe@), s_read.pipe@, msg, msg);
    }
    ((m, e), Ghost(msg))
}

/// Reads messages until the pipe has no whole frame left or the mode is to
/// change; returns the mode to continue in.
pub fn safe_check_for_input(state: &mut DroneState, eof: Result<[u8; 4], FlashError>) -> (r: DroneMode)
    requires
        old(state).wf(),
    ensures
        safe_input(*old(state), *final(state), r),
{
    let ghost a = *state;
    proof {
        lemma_extends_refl(state.outbox@);
    }
    let ((m1, e1), Ghost(msg1)) = safe_step(state, eof, Ghost(a));
    let ghost s1 = *state;
    let mut ret = m1;
    let mut exit = e1;
    let ghost mut last = a.pipe@;
    proof {
        lemma_extends_refl(state.outbox@);
    }
    let ghost mut count: nat = 0;
    let ghost mut msg2: DataT = DataT::Empty;
    while !exit && ret == DroneMode::Safe
        invariant
            safe_progress(a, *state, ret, exit, last),
            extends(state.outbox@, s1.outbox@),
            (e1 || m1 != DroneMode::Safe) ==> *state == s1 && ret == m1 && exit == e1,
            s1.ticks_since_last_ka == 0 ==> state.ticks_since_last_ka == 0,
            count == 0 ==> *state == s1 && ret == m1 && exit == e1,
            count > 0 ==> read_from(s1.pipe@, after_read(s1.pipe@), msg2),
            count > 0 && msg2 == DataT::Empty ==> exit && ret == DroneMode::Safe && state.pipe@
                == after_read(s1.pipe@),
        decreases state.pipe@.len() + if exit {
            0int
        } else {
            1int
        },
    {
        let ghost before = state.pipe@;
        let ghost ob = state.outbox@;
        let ((m, e), Ghost(g)) = safe_step(state, eof, Ghost(a));
        proof {
            if count == 0 {
                msg2 = g;
            }
            count = count + 1;
            last = before;
            lemma_extends_trans(state.outbox@, ob, s1.outbox@);
        }
        ret = m;
        exit = e;
    }
    proof {
        let b = *state;
        let first = after_read(a.pipe@);
        if ret != DroneMode::Safe {
            assert(read_since(a, b.pipe@, DataT::Mode(ret)));
        } else if !exit {
        } else if read_from(last, b.pipe@, DataT::Empty) {
            assert(read_since(a, b.pipe@, DataT::Empty));
        }
        if read_from(a.pipe@, first, DataT::Empty) {
            lemma_read_unique(a.pipe@, first, first, DataT::Empty, msg1);
        }
        if read_from(a.pipe@, first, DataT::Mode(DroneMode::Panic)) {
            lemma_read_unique(a.pipe@, first, first, DataT::Mode(DroneMode::Panic), msg1);
        }
        if read_from(a.pipe@, first, DataT::KeepAlive) {
            lemma_read_unique(a.pipe@, first, first, DataT::KeepAlive, msg1);
            if read_from(first, after_read(first), DataT::Empty) {
                assert(count > 0);
                lemma_read_unique(first, after_read(first), after_read(first), DataT::Empty, msg2);
            }
        }
        assert forall|md: DroneMode|
            #[trigger] read_from(a.pipe@, first, DataT::Mode(md)) implies msg1 == DataT::Mode(md) by {
            lemma_read_unique(a.pipe@, first, first, DataT::Mode(md), msg1);
        }
        assert(b.wf());
        assert(same_reading(b, a));
        assert(extends(b.outbox@, a.outbox@));
        assert(ret != DroneMode::Safe ==> read_since(a, b.pipe@, DataT::Mode(ret)));
        assert(ret == DroneMode::Safe ==> read_since(a, b.pipe@, DataT::Empty) || (!neutral(
            b.received_command,
        ) && exists|prev: Seq<u8>|
            b.outbox@ == #[trigger] sent(prev, DataT::Warning(WarningDT::ControlNotNeutral))));
        assert(read_from(a.pipe@, first, DataT::Empty) ==> ret == DroneMode::Safe && b == (DroneState {
            pipe: b.pipe,
            outbox: b.outbox,
            ..a
        }));
        assert(read_from(a.pipe@, first, DataT::Mode(DroneMode::Panic)) ==> ret == DroneMode::Panic
            && b.pipe@ == first && b == (DroneState { pipe: b.pipe, ..a }));
        assert(forall|md: DroneMode|
            #[trigger] read_from(a.pipe@, first, DataT::Mode(md)) && md != DroneMode::Panic
                && !neutral(a.received_command) ==> ret == DroneMode::Safe && b.pipe@ == first
                && b.outbox@ == sent(a.outbox@, DataT::Warning(WarningDT::ControlNotNeutral)) && b == (
            DroneState { pipe: b.pipe, outbox: b.outbox, ..a }));
        assert(forall|md: DroneMode|
            #[trigger] read_from(a.pipe@, first, DataT::Mode(md)) && neutral(a.received_command) && (
            md == DroneMode::Manual || md == DroneMode::Calibrate || (is_sensor_mode(md)
                && a.calibrated_data.is_calibrated)) ==> ret == md && b.pipe@ == first && b == (
            DroneState { pipe: b.pipe, ..a }));
        assert(forall|md: DroneMode|
            #[trigger] read_from(a.pipe@, first, DataT::Mode(md)) && neutral(a.received_command)
                && is_sensor_mode(md) && !a.calibrated_data.is_calibrated ==> extends(
                b.outbox@,
                sent(a.outbox@, DataT::Warning(WarningDT::SensorNotCalibrated)),
            ));
        assert(safe_input(a, b, ret));
    }
    ret
}

/// What reading input leaves alone, and that the pipe only shrinks.
pub open spec fn same_reading(a: DroneState, b: DroneState) -> bool {
    &&& a.mode == b.mode
    &&& a.motor_command == b.motor_command
    &&& a.config == b.config
    &&& a.debug_info == b.debug_info
    &&& a.calibrated_data == b.calibrated_data
    &&& a.sensors_dmp == b.sensors_dmp
    &&& a.sensors_raw == b.sensors_raw
    &&& a.pipe@.len() <= b.pipe@.len()
    &&& a.pipe.capacity() == b.pipe.capacity()
}

/// What reading the input in a flying mode does, from `a` to `b`, deciding
/// `r`. Messages are read and handled as `flying_handle_message` says
/// until no message is found (the mode stays) or `Safe` or `Panic` is
/// asked for (the result is `Panic`). Only the pilot command, the
/// keep-alive counter and, where the mode takes them, the gains change, and
/// each only as some message read asked.
pub open spec fn flying_input(
    a: DroneState,
    b: DroneState,
    r: DroneMode,
    current: DroneMode,
    accepts_p: bool,
    accepts_p1p2: bool,
) -> bool {
    let first = after_read(a.pipe@);
    &&& b.wf()
    &&& same_reading(b, a)
    &&& extends(b.outbox@, a.outbox@)
    &&& (r == current || r == DroneMode::Panic)
    &&& (r != current ==> b.pipe@.len() < a.pipe@.len())
    &&& (r != current ==> read_since(a, b.pipe@, DataT::Mode(DroneMode::Safe)) || read_since(
        a,
        b.pipe@,
        DataT::Mode(DroneMode::Panic),
    ))
    &&& (r == current ==> read_since(a, b.pipe@, DataT::Empty))
    &&& b == (DroneState {
        pipe: b.pipe,
        outbox: b.outbox,
        received_command: b.received_command,
        ticks_since_last_ka: b.ticks_since_last_ka,
        p: b.p,
        p1: b.p1,
        p2: b.p2,
        ..a
    })
    &&& (b.received_command == a.received_command || exists|q: Seq<u8>, rest: Seq<u8>|
        q.len() <= a.pipe@.len() && #[trigger] read_from(q, rest, DataT::Control(b.received_command)))
    &&& (b.ticks_since_last_ka == a.ticks_since_last_ka || (b.ticks_since_last_ka == 0 && exists|
        q: Seq<u8>,
        rest: Seq<u8>,
    | q.len() <= a.pipe@.len() && #[trigger] read_from(q, rest, DataT::KeepAlive)))
    &&& (b.p == a.p || (accepts_p && exists|q: Seq<u8>, rest: Seq<u8>|
        q.len() <= a.pipe@.len() && #[trigger] read_from(q, rest, DataT::UpdateP(UpdatePDT { p: b.p }))))
    &&& ((b.p1 == a.p1 && b.p2 == a.p2) || (accepts_p1p2 && exists|q: Seq<u8>, rest: Seq<u8>|
        q.len() <= a.pipe@.len() && #[trigger] read_from(
            q,
            rest,
            DataT::UpdateP1P2(UpdateP1P2DT { p1: b.p1, p2: b.p2 }),
        )))
    &&& (read_from(a.pipe@, first, DataT::Empty) ==> r == current && b == (DroneState {
        pipe: b.pipe,
        outbox: b.outbox,
        ..a
    }))
    &&& (read_from(a.pipe@, first, DataT::Mode(DroneMode::Safe)) || read_from(
        a.pipe@,
        first,
        DataT::Mode(DroneMode::Panic),
    ) ==> r == DroneMode::Panic && b.pipe@ == first && b == (DroneState { pipe: b.pipe, ..a }))
    &&& (read_from(a.pipe@, first, DataT::KeepAlive) ==> b.ticks_since_last_ka == 0)
    &&& (read_from(a.pipe@, first, DataT::KeepAlive) && read_from(first, after_read(first), DataT::Empty)
        ==> r == current && b.pipe@ == after_read(first))
}

/// Reads messages in a flying mode until the pipe has no whole frame left
/// or the mode is to change.
pub fn flying_check_for_input(
    state: &mut DroneState,
    current: DroneMode,
    accepts_p: bool,
    accepts_p1p2: bool,
) -> (r: DroneMode)
    requires
        old(state).wf(),
        current != DroneMode::Panic,
    ensures
        flying_input(*old(state), *final(state), r, current, accepts_p, accepts_p1p2),
{
    let ghost a = *state;
    let mut ret = current;
    let mut exit = false;
    let ghost mut last: Seq<u8> = a.pipe@;
    let ghost mut cq: Seq<u8> = a.pipe@;
    let ghost mut cr: Seq<u8> = a.pipe@;
    let ghost mut kq: Seq<u8> = a.pipe@;
    let ghost mut kr: Seq<u8> = a.pipe@;
    let ghost mut pq: Seq<u8> = a.pipe@;
    let ghost mut pr: Seq<u8> = a.pipe@;
    let ghost mut fq: Seq<u8> = a.pipe@;
    let ghost mut fr: Seq<u8> = a.pipe@;
    let ghost mut first_msg: DataT = DataT::Empty;
    let ghost mut msg2: DataT = DataT::Empty;
    let ghost mut count: nat = 0;
    proof {
        lemma_extends_refl(state.outbox@);
    }
    while !exit && ret == current
        invariant
            state.wf(),
            same_reading(*state, a),
            extends(state.outbox@, a.outbox@),
            current != DroneMode::Panic,
            ret == current || ret == DroneMode::Panic,
            ret != current ==> state.pipe@.len() < a.pipe@.len(),
            last.len() <= a.pipe@.len(),
            ret != current ==> read_from(last, state.pipe@, DataT::Mode(DroneMode::Safe))
                || read_from(last, state.pipe@, DataT::Mode(DroneMode::Panic)),
            exit && ret == current ==> read_from(last, state.pipe@, DataT::Empty),
            *state == (DroneState {
                pipe: state.pipe,
                outbox: state.outbox,
                received_command: state.received_command,
                ticks_since_last_ka: state.ticks_since_last_ka,
                p: state.p,
                p1: state.p1,
                p2: state.p2,
                ..a
            }),
            cq.len() <= a.pipe@.len() && kq.len() <= a.pipe@.len() && pq.len() <= a.pipe@.len()
                && fq.len() <= a.pipe@.len(),
            state.received_command == a.received_command || read_from(
                cq,
                cr,
                DataT::Control(state.received_command),
            ),
            state.ticks_since_last_ka == a.ticks_since_last_ka || (state.ticks_since_last_ka == 0
                && read_from(kq, kr, DataT::KeepAlive)),
            state.p == a.p || (accepts_p && read_from(pq, pr, DataT::UpdateP(UpdatePDT { p: state.p }))),
            (state.p1 == a.p1 && state.p2 == a.p2) || (accepts_p1p2 && read_from(
                fq,
                fr,
                DataT::UpdateP1P2(UpdateP1P2DT { p1: state.p1, p2: state.p2 }),
            )),
            count > 0 ==> read_from(a.pipe@, after_read(a.pipe@), first_msg),
            count == 0 ==> *state == a && ret == current && !exit,
            count > 0 && (first_msg == DataT::Empty || first_msg == DataT::Mode(DroneMode::Safe)
                || first_msg == DataT::Mode(DroneMode::Panic)) ==> (exit || ret != current)
                && state.pipe@ == after_read(a.pipe@) && (first_msg == DataT::Empty ==> ret == current
                && *state == (DroneState { pipe: state.pipe, outbox: state.outbox, ..a }))
                && (first_msg != DataT::Empty ==> ret == DroneMode::Panic && *state == (DroneState {
                pipe: state.pipe,
                ..a
            })),
            count > 0 && first_msg == DataT::KeepAlive ==> state.ticks_since_last_ka == 0,
            count == 1 && first_msg == DataT::KeepAlive ==> !exit && ret == current && state.pipe@
                == after_read(a.pipe@),
            count == 1 ==> state.pipe@ == after_read(a.pipe@),
            count > 1 ==> read_from(after_read(a.pipe@), after_read(after_read(a.pipe@)), msg2),
            count > 1 && first_msg == DataT::KeepAlive && msg2 == DataT::Empty ==> exit && ret
                == current && state.pipe@ == after_read(after_read(a.pipe@)),
        decreases state.pipe@.len() + if exit {
            0int
        } else {
            1int
        },
    {
        let ghost before = state.pipe@;
        let ghost ob = state.outbox@;
        let msg = state.read_data();
        let ghost s_read = *state;
        let ghost gmsg = msg;
        let (m, e) = flying_handle_message(state, msg, current, accepts_p, accepts_p1p2);
        proof {
            lemma_extends_trans(state.outbox@, s_read.outbox@, ob);
            lemma_extends_trans(state.outbox@, ob, a.outbox@);
            lemma_read_unique(before, after_read(before), s_read.pipe@, gmsg, gmsg);
            last = before;
            assert(read_from(before, s_read.pipe@, gmsg));
            assert(state.pipe == s_read.pipe);
            if e && m == current {
                assert(gmsg == DataT::Empty);
            }
            if count == 0 {
                first_msg = gmsg;
            }
            if count == 1 {
                msg2 = gmsg;
            }
            count = count + 1;
            match gmsg {
                DataT::Control(_) => {
                    cq = before;
                    cr = s_read.pipe@;
                },
                DataT::KeepAlive => {
                    kq = before;
                    kr = s_read.pipe@;
                },
                DataT::UpdateP(_) => {
                    if accepts_p {
                        pq = before;
                        pr = s_read.pipe@;
                    }
                },
                DataT::UpdateP1P2(_) => {
                    if accepts_p1p2 {
                        fq = before;
                        fr = s_read.pipe@;
                    }
                },
                _ => {},
            }
        }
        ret = m;
        exit = e;
    }
    proof {
        let b = *state;
        let first = after_read(a.pipe@);
        if read_from(a.pipe@, first, DataT::Empty) {
            lemma_read_unique(a.pipe@, first, first, DataT::Empty, first_msg);
        }
        if read_from(a.pipe@, first, DataT::Mode(DroneMode::Safe)) {
            lemma_read_unique(a.pipe@, first, first, DataT::Mode(DroneMode::Safe), first_msg);
        }
        if read_from(a.pipe@, first, DataT::Mode(DroneMode::Panic)) {
            lemma_read_unique(a.pipe@, first, first, DataT::Mode(DroneMode::Panic), first_msg);
        }
        if read_from(a.pipe@, first, DataT::KeepAlive) {
            lemma_read_unique(a.pipe@, first, first, DataT::KeepAlive, first_msg);
            if read_from(first, after_read(first), DataT::Empty) {
                lemma_read_unique(first, after_read(first), after_read(first), DataT::Empty, msg2);
            }
        }
        if ret != current {
            assert(read_since(a, b.pipe@, DataT::Mode(DroneMode::Safe)) || read_since(
                a,
                b.pipe@,
                DataT::Mode(DroneMode::Panic),
            ));
        } else {
            assert(read_since(a, b.pipe@, DataT::Empty));
        }
    }
    ret
}

/// What reading the input in `Panic` does, from `a` to `b`: messages are
/// read until none is found; keep-alives reset the counter, and nothing
/// else changes (pilot commands and mode requests are ignored).
pub open spec fn panic_input(a: DroneState, b: DroneState) -> bool {
    &&& b.wf()
    &&& same_reading(b, a)
    &&& extends(b.outbox@, a.outbox@)
    &&& read_since(a, b.pipe@, DataT::Empty)
    &&& b == (DroneState {
        pipe: b.pipe,
        outbox: b.outbox,
        ticks_since_last_ka: b.ticks_since_last_ka,
        ..a
    })
    &&& (b.ticks_since_last_ka == a.ticks_since_last_ka || (b.ticks_since_last_ka == 0 && exists|
        q: Seq<u8>,
        rest: Seq<u8>,
    | q.len() <= a.pipe@.len() && #[trigger] read_from(q, rest, DataT::KeepAlive)))
    &&& (read_from(a.pipe@, after_read(a.pipe@), DataT::Empty) ==> b == (DroneState {
        pipe: b.pipe,
        outbox: b.outbox,
        ..a
    }))
    &&& (read_from(a.pipe@, after_read(a.pipe@), DataT::KeepAlive) ==> b.ticks_since_last_ka == 0)
}

/// Reads messages in `Panic` mode until the pipe has no whole frame left;
/// only keep-alives are taken.
pub fn panic_check_for_input(state: &mut DroneState) -> (r: DroneMode)
    requires
        old(state).wf(),
    ensures
        r == DroneMode::Panic,
        panic_input(*old(state), *final(state)),
{
    let ghost a = *state;
    let mut exit = false;
    let ghost mut last: Seq<u8> = a.pipe@;
    let ghost mut kq: Seq<u8> = a.pipe@;
    let ghost mut kr: Seq<u8> = a.pipe@;
    let ghost mut first_msg: DataT = DataT::Empty;
    let ghost mut count: nat = 0;
    proof {
        lemma_extends_refl(state.outbox@);
    }
    while !exit
        invariant
            state.wf(),
            same_reading(*state, a),
            extends(state.outbox@, a.outbox@),
            last.len() <= a.pipe@.len(),
            kq.len() <= a.pipe@.len(),
            exit ==> read_from(last, state.pipe@, DataT::Empty),
            *state == (DroneState {
                pipe: state.pipe,
                outbox: state.outbox,
                ticks_since_last_ka: state.ticks_since_last_ka,
                ..a
            }),
            state.ticks_since_last_ka == a.ticks_since_last_ka || (state.ticks_since_last_ka == 0
                && read_from(kq, kr, DataT::KeepAlive)),
            count > 0 ==> read_from(a.pipe@, after_read(a.pipe@), first_msg),
            count == 0 ==> *state == a && !exit,
            count > 0 && first_msg == DataT::Empty ==> exit && *state == (DroneState {
                pipe: state.pipe,
                outbox: state.outbox,
                ..a
            }),
            count > 0 && first_msg == DataT::KeepAlive ==> state.ticks_since_last_ka == 0,
        decreases state.pipe@.len() + if exit {
            0int
        } else {
            1int
        },
    {
        let ghost before = state.pipe@;
        let ghost ob = state.outbox@;
        let msg = state.read_data();
        proof {
            lemma_extends_trans(state.outbox@, ob, a.outbox@);
            lemma_read_unique(before, after_read(before), state.pipe@, msg, msg);
            last = before;
            if count == 0 {
                first_msg = msg;
            }
            count = count + 1;
            if msg == DataT::KeepAlive {
                kq = before;
                kr = state.pipe@;
            }
        }
        match msg {
            DataT::KeepAlive => state.got_keep_alive(),
            DataT::Empty => {
                exit = true;
            },
            _ => {},
        }
    }
    proof {
        let first = after_read(a.pipe@);
        if read_from(a.pipe@, first, DataT::Empty) {
            lemma_read_unique(a.pipe@, first, first, DataT::Empty, first_msg);
        }
        if read_from(a.pipe@, first, DataT::KeepAlive) {
            lemma_read_unique(a.pipe@, first, first, DataT::KeepAlive, first_msg);
        }
        assert(read_since(a, state.pipe@, DataT::Empty));
    }
    DroneMode::Panic
}

/// The first `n` bytes of `v` (all of them when it is shorter).
fn first_bytes(v: &Vec<u8>, n: usize) -> (r: Vec<u8>)
    ensures
        r@ == if v@.len() <= n {
            v@
        } else {
            v@.take(n as int)
        },
{
    let mut r: Vec<u8> = Vec::new();
    let mut i: usize = 0;
    while i < v.len() && i < n
        invariant
            i <= v@.len(),
            i <= n,
            r@ == v@.take(i as int),
        decreases v@.len() - i,
    {
        r.push(v[i]);
        i = i + 1;
        assert(r@ =~= v@.take(i as int));
    }
    if v.len() <= n {
        assert(v@.take(v@.len() as int) =~= v@);
    }
    r
}

/// A message with the same encoding.
fn copy_message(m: &DataT) -> (r: DataT)
    requires
        m.wf(),
    ensures
        r.wf(),
        encoding(r) == encoding(*m),
{
    match m {
        DataT::Message(t) => {
            let mut c: Vec<u8> = Vec::new();
            let mut i: usize = 0;
            while i < t.len()
                invariant
                    i <= t@.len(),
                    c@ == t@.take(i as int),
                decreases t@.len() - i,
            {
                c.push(t[i]);
                i = i + 1;
                assert(c@ =~= t@.take(i as int));
            }
            assert(t@.take(t@.len() as int) =~= t@);
            DataT::Message(c)
        },
        DataT::Control(x) => DataT::Control(*x),
        DataT::Mode(x) => DataT::Mode(*x),
        DataT::Tuning(x) => DataT::Tuning(*x),
        DataT::SensorData(x) => DataT::SensorData(*x),
        DataT::HealthData(x) => DataT::HealthData(*x),
        DataT::MotorsState(x) => DataT::MotorsState(*x),
        DataT::Warning(x) => DataT::Warning(*x),
        DataT::AckNack(x) => DataT::AckNack(*x),
        DataT::KeepAlive => DataT::KeepAlive,
        DataT::Empty => DataT::Empty,
        DataT::CalibratedAck(x) => DataT::CalibratedAck(*x),
        DataT::SensorReading(x) => DataT::SensorReading(*x),
        DataT::SonsorNotCalibrated => DataT::SonsorNotCalibrated,
        DataT::MovementErrors(x) => DataT::MovementErrors(*x),
        DataT::UpdateP(x) => DataT::UpdateP(*x),
        DataT::UpdateP1P2(x) => DataT::UpdateP1P2(*x),
        DataT::StartLogging => DataT::StartLogging,
        DataT::StopLogging => DataT::StopLogging,
        DataT::StartLogReporting => DataT::StartLogReporting,
        DataT::StopLogReporting => DataT::StopLogReporting,
        DataT::SensorLog(x) => DataT::SensorLog(*x),
    }
}

/// Whether sending two messages with one encoding appends the same bytes.
proof fn lemma_sent_by_encoding(out: Seq<u8>, a: DataT, b: DataT)
    requires
        encoding(a) == encoding(b),
    ensures
        sent(out, a) == sent(out, b),
{
}

/// The periodic telemetry of tick `iter`: a keep-alive every
/// `ka_tick_period` ticks, the battery every `battery_printing_time`, the
/// debug message every 10 and every `debug_info_period`, the motor command
/// every `debug_motor_command_period`.
pub open spec fn periodic(out: Seq<u8>, s: DroneState, iter: u32, battery: u16) -> Seq<u8> {
    let c = s.config;
    let o1 = if iter % c.ka_tick_period == 0 {
        sent(out, DataT::KeepAlive)
    } else {
        out
    };
    let o2 = if c.check_battery && iter % c.battery_printing_time == 0 {
        sent(o1, DataT::HealthData(HealthDT { bat: battery, cpu: 0, pres: 0 }))
    } else {
        o1
    };
    let o3 = if iter % 10 == 0 {
        sent(o2, s.debug_info)
    } else {
        o2
    };
    let o4 = if iter % c.debug_motor_command_period == 0 {
        sent(
            o3,
            DataT::MotorsState(
                MotorsDT {
                    ae1: s.motor_command@[0],
                    ae2: s.motor_command@[1],
                    ae3: s.motor_command@[2],
                    ae4: s.motor_command@[3],
                },
            ),
        )
    } else {
        o3
    };
    if iter % c.debug_info_period == 0 {
        sent(o4, s.debug_info)
    } else {
        o4
    }
}

/// Sends the periodic telemetry of tick `iter`.
pub fn do_periodic(state: &mut DroneState, iter_count: u32, battery: u16)
    requires
        old(state).wf(),
    ensures
        final(state).outbox@ == periodic(old(state).outbox@, *old(state), iter_count, battery),
        *final(state) == (DroneState { outbox: final(state).outbox, ..*old(state) }),
{
    let ghost s0 = *state;
    if iter_count % state.config.ka_tick_period == 0 {
        state.send_alive();
    }
    if state.config.check_battery && iter_count % state.config.battery_printing_time == 0 {
        state.send_data(DataT::HealthData(HealthDT { bat: battery, cpu: 0, pres: 0 }));
    }
    if iter_count % 10 == 0 {
        let d = copy_message(&state.debug_info);
        proof {
            lemma_sent_by_encoding(state.outbox@, d, state.debug_info);
        }
        state.send_data(d);
    }
    if iter_count % state.config.debug_motor_command_period == 0 {
        let mc = state.get_motors();
        state.send_data(
            DataT::MotorsState(MotorsDT { ae1: mc[0], ae2: mc[1], ae3: mc[2], ae4: mc[3] }),
        );
    }
    if iter_count % state.config.debug_info_period == 0 {
        let d = copy_message(&state.debug_info);
        proof {
            lemma_sent_by_encoding(state.outbox@, d, state.debug_info);
        }
        state.send_data(d);
    }
}


/// What the device read this tick, handed to the state machine.
pub struct TickInput {
    /// The raw battery reading.
    pub battery: u16,
    /// The attitude from the motion processor.
    pub ypr: YawPitchRoll,
    /// Raw accelerometer and gyro readings.
    pub accel: [i16; 3],
    pub gyro: [i16; 3],
    /// What flash address 0 holds (the end of the stored log).
    pub eof: Result<[u8; 4], FlashError>,
    /// The log record at `flash_iterator`, when a log is being reported.
    pub report_record: Result<[u8; 18], FlashError>,
    /// Readings taken at rest, when calibrating.
    pub calibration: Vec<CalibrationSample>,
}

/// Order of the modes in which a switch can happen without reading a
/// message: a flying or calibrating mode falls to `Panic`, `Panic` to
/// `Safe`.
pub open spec fn rank(m: DroneMode) -> int {
    match m {
        DroneMode::Safe => 0,
        DroneMode::Panic => 1,
        _ => 2,
    }
}

pub open spec fn zero_motors() -> Seq<u16> {
    seq![0u16, 0u16, 0u16, 0u16]
}

/// The motor command for a pilot command: the mixer's output, or all off
/// when a channel is out of range.
pub open spec fn mixed(cc: Seq<u16>) -> Seq<u16> {
    if in_bounds(cc) {
        motor_map(cc)
    } else {
        zero_motors()
    }
}

pub open spec fn cc_of(s: DroneState) -> Seq<u16> {
    seq![
        s.received_command.lift,
        s.received_command.roll,
        s.received_command.pitch,
        s.received_command.yaw,
    ]
}

/// The pilot command with the yaw channel from the yaw-rate controller.
pub open spec fn yaw_controlled(s: DroneState, dt_ms: u32) -> Seq<u16> {
    let cc = cc_of(s);
    let off = s.calibrated_data.yaw_offset.bits as int;
    cc.update(
        3,
        yaw_response(
            s.p.bits as int,
            cc[3] - 1024,
            q_sub(s.sensors_dmp.sensor_new.yaw.bits as int, off),
            q_sub(s.sensors_dmp.sensor_old.yaw.bits as int, off),
            dt_ms as int,
        ) as u16,
    )
}

/// The pilot command with roll, pitch and yaw from the controllers on the
/// motion processor's attitude.
pub open spec fn full_controlled(s: DroneState, dt_ms: u32) -> Seq<u16> {
    let cc = cc_of(s);
    let c = s.calibrated_data;
    let n = s.sensors_dmp.sensor_new;
    let o = s.sensors_dmp.sensor_old;
    yaw_controlled(s, dt_ms).update(
        1,
        dmp_attitude_response(
            s.p1.bits as int,
            s.p2.bits as int,
            cc[1] - 1024,
            q_sub(o.roll.bits as int, c.roll_offset.bits as int),
            q_sub(n.roll.bits as int, c.roll_offset.bits as int),
            dt_ms as int,
            1,
        ) as u16,
    ).update(
        2,
        dmp_attitude_response(
            s.p1.bits as int,
            s.p2.bits as int,
            cc[2] - 1024,
            q_sub(o.pitch.bits as int, c.pitch_offset.bits as int),
            q_sub(n.pitch.bits as int, c.pitch_offset.bits as int),
            dt_ms as int,
            -1,
        ) as u16,
    )
}

/// The pilot command with roll, pitch and yaw from the controllers on the
/// complementary filter.
pub open spec fn raw_controlled(s: DroneState, dt_ms: u32) -> Seq<u16> {
    let cc = cc_of(s);
    let r = s.sensors_raw;
    seq![
        cc[0],
        raw_attitude_response(
            s.p1.bits as int,
            s.p2.bits as int,
            cc[1] - 1024,
            r.phi_der.bits as int,
            r.phi.bits as int,
            dt_ms as int,
        ) as u16,
        raw_attitude_response(
            s.p1.bits as int,
            s.p2.bits as int,
            cc[2] - 1024,
            r.theta_der.bits as int,
            r.theta.bits as int,
            dt_ms as int,
        ) as u16,
        raw_yaw_response(s.p.bits as int, cc[3] - 1024, r.yaw_der.bits as int, dt_ms as int) as u16,
    ]
}

/// The mixer's output, or all off when a channel is out of range.
fn map_or_stop(cc: [u16; 4]) -> (r: [u16; 4])
    ensures
        r@ == mixed(cc@),
        forall|i: int| 0 <= i < 4 ==> #[trigger] r@[i] <= 800,
{
    match motor_mapping(cc) {
        Ok(m) => m,
        Err(_) => {
            let z: [u16; 4] = [0, 0, 0, 0];
            assert(z@ =~= zero_motors());
            z
        },
    }
}

fn cc_in_bounds(cc: [u16; 4]) -> (r: bool)
    ensures
        r == in_bounds(cc@),
{
    let mut i: usize = 0;
    while i < 4
        invariant
            i <= 4,
            forall|j: int| 0 <= j < i ==> #[trigger] cc@[j] <= 2047,
        decreases 4 - i,
    {
        if cc[i] > 2047 {
            return false;
        }
        i = i + 1;
    }
    true
}

pub open spec fn is_battery_low_spec(s: DroneState, battery: u16) -> bool {
    s.config.check_battery && battery < 1050
}

/// Whether the battery is too low to fly.
pub fn is_battery_low(state: &DroneState, battery: u16) -> (r: bool)
    ensures
        r == is_battery_low_spec(*state, battery),
{
    state.config.check_battery && battery < 1050
}

/// Sets the motors from the pilot command as the mixer maps it.
pub fn manual_motor_control(state: &mut DroneState)
    requires
        old(state).wf(),
        old(state).mode != DroneMode::Safe,
    ensures
        final(state).wf(),
        *final(state) == (DroneState { motor_command: final(state).motor_command, ..*old(state) }),
        final(state).motor_command@ == mixed(cc_of(*old(state))),
{
    let cc = state.get_cc_as_vec();
    let m = map_or_stop(cc);
    state.set_motors(m);
}

/// Sets the motors with the yaw channel under yaw-rate control.
pub fn yaw_motor_control(state: &mut DroneState, dt_ms: u32)
    requires
        old(state).wf(),
        old(state).mode != DroneMode::Safe,
        1 <= dt_ms <= 32767,
    ensures
        final(state).wf(),
        *final(state) == (DroneState { motor_command: final(state).motor_command, ..*old(state) }),
        final(state).motor_command@ == if in_bounds(cc_of(*old(state))) {
            motor_map(yaw_controlled(*old(state), dt_ms))
        } else {
            zero_motors()
        },
{
    let mut cc = state.get_cc_as_vec();
    if !cc_in_bounds(cc) {
        let m = map_or_stop(cc);
        state.set_motors(m);
        return;
    }
    let n = state.sensors_dmp.get_dmp_yaw_value(&state.calibrated_data);
    let o = state.sensors_dmp.get_dmp_yaw_value_old(&state.calibrated_data);
    cc[3] = yaw_control_dmp(cc[3] as i32 - 1024, state.p, n, o, dt_ms);
    assert(cc@ =~= yaw_controlled(*old(state), dt_ms));
    assert(in_bounds(cc@));
    let m = map_or_stop(cc);
    state.set_motors(m);
}

/// Sets the motors with roll, pitch and yaw under control on the motion
/// processor's attitude.
pub fn full_motor_control(state: &mut DroneState, dt_ms: u32)
    requires
        old(state).wf(),
        old(state).mode != DroneMode::Safe,
        1 <= dt_ms <= 32767,
    ensures
        final(state).wf(),
        *final(state) == (DroneState { motor_command: final(state).motor_command, ..*old(state) }),
        final(state).motor_command@ == if in_bounds(cc_of(*old(state))) {
            motor_map(full_controlled(*old(state), dt_ms))
        } else {
            zero_motors()
        },
{
    let mut cc = state.get_cc_as_vec();
    if !cc_in_bounds(cc) {
        let m = map_or_stop(cc);
        state.set_motors(m);
        return;
    }
    let c = state.calibrated_data;
    let d = state.sensors_dmp;
    let roll_cmd = cc[1] as i32 - 1024;
    let pitch_cmd = cc[2] as i32 - 1024;
    let yaw_cmd = cc[3] as i32 - 1024;
    cc[3] = yaw_control_dmp(yaw_cmd, state.p, d.get_dmp_yaw_value(&c), d.get_dmp_yaw_value_old(&c), dt_ms);
    cc[1] = roll_control_dmp(
        roll_cmd,
        d.get_dmp_roll_value_old(&c),
        d.get_dmp_roll_value(&c),
        state.p1,
        state.p2,
        dt_ms,
    );
    cc[2] = pitch_control_dmp(
        pitch_cmd,
        d.get_dmp_pitch_value_old(&c),
        d.get_dmp_pitch_value(&c),
        state.p1,
        state.p2,
        dt_ms,
    );
    assert(cc@ =~= full_controlled(*old(state), dt_ms));
    assert(in_bounds(cc@));
    let m = map_or_stop(cc);
    state.set_motors(m);
}

/// Sets the motors with roll, pitch and yaw under control on the
/// complementary filter.
pub fn raw_motor_control(state: &mut DroneState, dt_ms: u32)
    requires
        old(state).wf(),
        old(state).mode != DroneMode::Safe,
        1 <= dt_ms <= 32767,
    ensures
        final(state).wf(),
        *final(state) == (DroneState { motor_command: final(state).motor_command, ..*old(state) }),
        final(state).motor_command@ == if in_bounds(cc_of(*old(state))) {
            motor_map(raw_controlled(*old(state), dt_ms))
        } else {
            zero_motors()
        },
{
    let mut cc = state.get_cc_as_vec();
    if !cc_in_bounds(cc) {
        let m = map_or_stop(cc);
        state.set_motors(m);
        return;
    }
    let r = state.sensors_raw;
    let roll_cmd = cc[1] as i32 - 1024;
    let pitch_cmd = cc[2] as i32 - 1024;
    let yaw_cmd = cc[3] as i32 - 1024;
    cc[1] = roll_control_raw(roll_cmd, r.phi_der, r.phi, state.p1, state.p2, dt_ms);
    cc[2] = pitch_control_raw(pitch_cmd, r.theta_der, r.theta, state.p1, state.p2, dt_ms);
    cc[3] = yaw_control_raw(yaw_cmd, state.p, r.yaw_der, dt_ms);
    assert(cc@ =~= raw_controlled(*old(state), dt_ms));
    assert(in_bounds(cc@));
    let m = map_or_stop(cc);
    state.set_motors(m);
}


/// What every mode step keeps: the invariant, the current mode, and that
/// the pipe only shrinks; a switch reads a message or moves to a lower
/// rank.
pub open spec fn step_ok(a: DroneState, b: DroneState, r: DroneMode) -> bool {
    &&& a.wf()
    &&& a.mode == b.mode
    &&& a.pipe@.len() <= b.pipe@.len()
    &&& a.pipe.capacity() == b.pipe.capacity()
    &&& (r != b.mode ==> a.pipe@.len() < b.pipe@.len() || rank(r) < rank(b.mode))
    &&& (r == DroneMode::Safe ==> a.motor_command@ == zero_motors())
}

/// After reading the input (`mid`): `b` is `mid` with the motor command
/// `motors` and, when the mode stays `stay`, the periodic telemetry.
pub open spec fn finished(
    mid: DroneState,
    b: DroneState,
    r: DroneMode,
    stay: DroneMode,
    iter: u32,
    battery: u16,
    motors: Seq<u16>,
) -> bool {
    &&& b == (DroneState { motor_command: b.motor_command, outbox: b.outbox, ..mid })
    &&& b.motor_command@ == motors
    &&& b.outbox@ == if r == stay {
        periodic(mid.outbox@, b, iter, battery)
    } else {
        mid.outbox@
    }
}

/// The `Safe` step: on a low battery nothing happens; else the input is
/// read, the motors are off, and the telemetry goes out while staying.
pub open spec fn safe_operated(a: DroneState, b: DroneState, r: DroneMode, iter: u32, input: TickInput) -> bool {
    if is_battery_low_spec(a, input.battery) {
        r == DroneMode::Safe && b == a
    } else {
        exists|mid: DroneState|
            #[trigger] safe_input(a, mid, r) && finished(
                mid,
                b,
                r,
                DroneMode::Safe,
                iter,
                input.battery,
                zero_motors(),
            )
    }
}

/// The step of a flying mode: on a low battery, `Panic` at once; else the
/// input is read, the motors set as `flying_motors` says, and the
/// telemetry goes out while staying.
pub open spec fn flying_operated(
    a: DroneState,
    b: DroneState,
    r: DroneMode,
    iter: u32,
    dt_ms: u32,
    input: TickInput,
    accepts_p: bool,
    accepts_p1p2: bool,
) -> bool {
    if is_battery_low_spec(a, input.battery) {
        r == DroneMode::Panic && b == a
    } else {
        exists|mid: DroneState|
            #[trigger] flying_input(a, mid, r, a.mode, accepts_p, accepts_p1p2) && finished(
                mid,
                b,
                r,
                a.mode,
                iter,
                input.battery,
                flying_motors(mid, a.mode, dt_ms),
            )
    }
}

/// Every motor lowered by `reduction`, stopping at 0.
pub open spec fn lowered_all(v: Seq<u16>, reduction: u16) -> Seq<u16> {
    seq![
        lowered(v[0], reduction),
        lowered(v[1], reduction),
        lowered(v[2], reduction),
        lowered(v[3], reduction),
    ]
}

/// The `Panic` step: the input is drained, every motor lowered by
/// `panic_motor_reduction`; `Safe` once all are off, else the telemetry.
pub open spec fn panic_operated(a: DroneState, b: DroneState, r: DroneMode, iter: u32, input: TickInput) -> bool {
    exists|mid: DroneState|
        #[trigger] panic_input(a, mid) && finished(
            mid,
            b,
            r,
            DroneMode::Panic,
            iter,
            input.battery,
            lowered_all(a.motor_command@, a.config.panic_motor_reduction),
        ) && (r == DroneMode::Safe <==> b.motor_command@ == zero_motors()) && (r == DroneMode::Safe
            || r == DroneMode::Panic)
}

/// The calibration data after calibrating on `samples`.
pub open spec fn calibrated_on(samples: Seq<CalibrationSample>) -> crate::drone::CalibrationData {
    crate::drone::CalibrationData {
        pitch_offset: crate::protocol::Q16 { bits: crate::drone::field_mean(samples, 0) as i32 },
        roll_offset: crate::protocol::Q16 { bits: crate::drone::field_mean(samples, 1) as i32 },
        yaw_offset: crate::protocol::Q16 { bits: crate::drone::field_mean(samples, 2) as i32 },
        accel_x_offset: crate::drone::field_mean(samples, 3) as i16,
        accel_y_offset: crate::drone::field_mean(samples, 4) as i16,
        accel_z_offset: crate::drone::field_mean(samples, 5) as i16,
        gyro_x_offset: crate::drone::field_mean(samples, 6) as i16,
        gyro_y_offset: crate::drone::field_mean(samples, 7) as i16,
        gyro_z_offset: crate::drone::field_mean(samples, 8) as i16,
        is_calibrated: true,
    }
}

/// The `Calibrate` step.
pub open spec fn calibrate_operated(a: DroneState, b: DroneState, r: DroneMode, input: TickInput) -> bool {
    if is_battery_low_spec(a, input.battery) {
        r == DroneMode::Panic && b == a
    } else if 0 < input.calibration@.len() <= i16::MAX {
        r == DroneMode::Panic && b == (DroneState { calibrated_data: calibrated_on(input.calibration@), ..a })
    } else {
        r == DroneMode::Calibrate && b == a
    }
}

/// The motion processor's readings after a new one.
pub open spec fn dmp_updated(d: crate::drone::SensorsDMP, ypr: YawPitchRoll) -> crate::drone::SensorsDMP {
    crate::drone::SensorsDMP { sensor_old: d.sensor_new, sensor_new: ypr }
}

/// The debug message of `RawMode`: the change of the motion processor's
/// yaw over the last reading and the filter's yaw rate, as
/// `dmp:<change>, raw:<rate>`, cut to 32 bytes.
pub open spec fn raw_debug_text(s: DroneState) -> Seq<u8> {
    let c = s.calibrated_data;
    let d = s.sensors_dmp;
    let change = q_sub(
        q_sub(d.sensor_new.yaw.bits as int, c.yaw_offset.bits as int),
        q_sub(d.sensor_old.yaw.bits as int, c.yaw_offset.bits as int),
    );
    let t = seq![0x64u8, 0x6d, 0x70, 0x3a] + crate::fixedpoint::q16_text(change as i32) + seq![
        0x2cu8,
        0x20,
        0x72,
        0x61,
        0x77,
        0x3a,
    ] + crate::fixedpoint::q16_text(s.sensors_raw.yaw_der.bits);
    if t.len() <= 32 {
        t
    } else {
        t.take(32)
    }
}

/// `RawMode` before its step: the motion processor's reading is taken and
/// the debug message set.
pub open spec fn raw_prepared(a: DroneState, input: TickInput, a2: DroneState) -> bool {
    &&& a2 == (DroneState {
        sensors_dmp: dmp_updated(a.sensors_dmp, input.ypr),
        debug_info: a2.debug_info,
        ..a
    })
    &&& a2.debug_info matches DataT::Message(t) && t@ == raw_debug_text(a2)
}

/// The step of the current mode of `a`.
#[verifier::opaque]
pub open spec fn mode_step(a: DroneState, b: DroneState, r: DroneMode, iter: u32, dt_ms: u32, input: TickInput) -> bool {
    match a.mode {
        DroneMode::Safe => safe_operated(a, b, r, iter, input),
        DroneMode::Manual => flying_operated(a, b, r, iter, dt_ms, input, false, false),
        DroneMode::Panic => panic_operated(a, b, r, iter, input),
        DroneMode::Calibrate => calibrate_operated(a, b, r, input),
        DroneMode::YawControl => flying_operated(a, b, r, iter, dt_ms, input, true, false),
        DroneMode::FullControl => flying_operated(a, b, r, iter, dt_ms, input, true, true),
        DroneMode::RawMode => exists|a2: DroneState|
            #[trigger] raw_prepared(a, input, a2) && flying_operated(
                a2,
                b,
                r,
                iter,
                dt_ms,
                input,
                true,
                true,
            ),
    }
}

impl SafeMode {
    /// Reads the input, keeps the motors off and sends the periodic
    /// telemetry while staying in `Safe`. On a low battery nothing is done
    /// and the mode stays `Safe`: switching to `Panic` there would come
    /// straight back (the motors are already off, so `Panic` hands over to
    /// `Safe`), and the dispatcher, which runs each new mode in the same
    /// tick, would never stop.
    pub fn operate(state: &mut DroneState, iter_count: u32, input: &TickInput) -> (r: DroneMode)
        requires
            old(state).wf(),
            old(state).mode == DroneMode::Safe,
        ensures
            step_ok(*final(state), *old(state), r),
            is_battery_low_spec(*old(state), input.battery) ==> r == DroneMode::Safe && *final(state)
                == *old(state),
            !is_battery_low_spec(*old(state), input.battery) ==> final(state).motor_command@
                == zero_motors(),
            safe_operated(*old(state), *final(state), r, iter_count, *input),
    {
        if is_battery_low(state, input.battery) {
            return DroneMode::Safe;
        }
        let next = safe_check_for_input(state, input.eof);
        let ghost mid = *state;
        let z: [u16; 4] = [0, 0, 0, 0];
        assert(z@ =~= zero_motors());
        state.set_motors(z);
        if next == DroneMode::Safe {
            do_periodic(state, iter_count, input.battery);
        }
        assert(safe_input(*old(state), mid, next) && finished(
            mid,
            *state,
            next,
            DroneMode::Safe,
            iter_count,
            input.battery,
            zero_motors(),
        ));
        next
    }
}

/// The motor command of a flying mode for the state `s` (after reading
/// the input): the mixer on the pilot command, with the channels that the
/// mode controls replaced by the controllers' outputs; all off when a
/// channel of the pilot command is out of range.
pub open spec fn flying_motors(s: DroneState, mode: DroneMode, dt_ms: u32) -> Seq<u16> {
    if !in_bounds(cc_of(s)) {
        zero_motors()
    } else {
        match mode {
            DroneMode::Manual => motor_map(cc_of(s)),
            DroneMode::YawControl => motor_map(yaw_controlled(s, dt_ms)),
            DroneMode::FullControl => motor_map(full_controlled(s, dt_ms)),
            _ => motor_map(raw_controlled(s, dt_ms)),
        }
    }
}

/// The step of a flying mode: on a low battery, `Panic`; else read the
/// input, set the motors and, while staying, send the periodic telemetry.
fn flying_operate(
    state: &mut DroneState,
    iter_count: u32,
    dt_ms: u32,
    input: &TickInput,
    accepts_p: bool,
    accepts_p1p2: bool,
) -> (r: DroneMode)
    requires
        old(state).wf(),
        1 <= dt_ms <= 32767,
        old(state).mode == DroneMode::Manual || old(state).mode == DroneMode::YawControl
            || old(state).mode == DroneMode::FullControl || old(state).mode == DroneMode::RawMode,
    ensures
        step_ok(*final(state), *old(state), r),
        r == old(state).mode || r == DroneMode::Panic,
        is_battery_low_spec(*old(state), input.battery) ==> r == DroneMode::Panic && *final(state)
            == *old(state),
        !is_battery_low_spec(*old(state), input.battery) ==> final(state).motor_command@
            == flying_motors(*final(state), old(state).mode, dt_ms),
        flying_operated(*old(state), *final(state), r, iter_count, dt_ms, *input, accepts_p, accepts_p1p2),
{
    let current = state.mode;
    if is_battery_low(state, input.battery) {
        return DroneMode::Panic;
    }
    let next = flying_check_for_input(state, current, accepts_p, accepts_p1p2);
    let ghost mid = *state;
    match current {
        DroneMode::Manual => manual_motor_control(state),
        DroneMode::YawControl => yaw_motor_control(state, dt_ms),
        DroneMode::FullControl => full_motor_control(state, dt_ms),
        _ => raw_motor_control(state, dt_ms),
    }
    assert(state.motor_command@ == flying_motors(mid, current, dt_ms));
    if next == current {
        do_periodic(state, iter_count, input.battery);
    }
    assert(flying_input(*old(state), mid, next, current, accepts_p, accepts_p1p2) && finished(
        mid,
        *state,
        next,
        current,
        iter_count,
        input.battery,
        flying_motors(mid, current, dt_ms),
    ));
    next
}

pub struct ManualMode;

impl ManualMode {
    pub fn get_mode() -> (r: DroneMode)
        ensures
            r == DroneMode::Manual,
    {
        DroneMode::Manual
    }

    /// Flies on the pilot command as the mixer maps it.
    pub fn operate(state: &mut DroneState, iter_count: u32, dt_ms: u32, input: &TickInput) -> (r: DroneMode)
        requires
            old(state).wf(),
            1 <= dt_ms <= 32767,
            old(state).mode == DroneMode::Manual,
        ensures
            step_ok(*final(state), *old(state), r),
            r == DroneMode::Manual || r == DroneMode::Panic,
            is_battery_low_spec(*old(state), input.battery) ==> r == DroneMode::Panic,
            !is_battery_low_spec(*old(state), input.battery) ==> final(state).motor_command@
                == flying_motors(*final(state), DroneMode::Manual, dt_ms),
            flying_operated(*old(state), *final(state), r, iter_count, dt_ms, *input, false, false),
    {
        flying_operate(state, iter_count, dt_ms, input, false, false)
    }
}

pub struct YawControlMode;

impl YawControlMode {
    pub fn get_mode() -> (r: DroneMode)
        ensures
            r == DroneMode::YawControl,
    {
        DroneMode::YawControl
    }

    /// Flies with the yaw channel under yaw-rate control; takes `UpdateP`.
    pub fn operate(state: &mut DroneState, iter_count: u32, dt_ms: u32, input: &TickInput) -> (r: DroneMode)
        requires
            old(state).wf(),
            1 <= dt_ms <= 32767,
            old(state).mode == DroneMode::YawControl,
        ensures
            step_ok(*final(state), *old(state), r),
            r == DroneMode::YawControl || r == DroneMode::Panic,
            is_battery_low_spec(*old(state), input.battery) ==> r == DroneMode::Panic,
            !is_battery_low_spec(*old(state), input.battery) ==> final(state).motor_command@
                == flying_motors(*final(state), DroneMode::YawControl, dt_ms),
            flying_operated(*old(state), *final(state), r, iter_count, dt_ms, *input, true, false),
    {
        flying_operate(state, iter_count, dt_ms, input, true, false)
    }
}

pub struct FullControlMode;

impl FullControlMode {
    pub fn get_mode() -> (r: DroneMode)
        ensures
            r == DroneMode::FullControl,
    {
        DroneMode::FullControl
    }

    /// Flies with roll, pitch and yaw under control on the motion
    /// processor's attitude; takes `UpdateP` and `UpdateP1P2`.
    pub fn operate(state: &mut DroneState, iter_count: u32, dt_ms: u32, input: &TickInput) -> (r: DroneMode)
        requires
            old(state).wf(),
            1 <= dt_ms <= 32767,
            old(state).mode == DroneMode::FullControl,
        ensures
            step_ok(*final(state), *old(state), r),
            r == DroneMode::FullControl || r == DroneMode::Panic,
            is_battery_low_spec(*old(state), input.battery) ==> r == DroneMode::Panic,
            !is_battery_low_spec(*old(state), input.battery) ==> final(state).motor_command@
                == flying_motors(*final(state), DroneMode::FullControl, dt_ms),
            flying_operated(*old(state), *final(state), r, iter_count, dt_ms, *input, true, true),
    {
        flying_operate(state, iter_count, dt_ms, input, true, true)
    }
}

pub struct RawMode;

impl RawMode {
    pub fn get_mode() -> (r: DroneMode)
        ensures
            r == DroneMode::RawMode,
    {
        DroneMode::RawMode
    }

    /// Flies with roll, pitch and yaw under control on the complementary
    /// filter; takes `UpdateP` and `UpdateP1P2`. The motion processor's
    /// reading is still taken.
    pub fn operate(state: &mut DroneState, iter_count: u32, dt_ms: u32, input: &TickInput) -> (r: DroneMode)
        requires
            old(state).wf(),
            1 <= dt_ms <= 32767,
            old(state).mode == DroneMode::RawMode,
        ensures
            step_ok(*final(state), *old(state), r),
            r == DroneMode::RawMode || r == DroneMode::Panic,
            is_battery_low_spec(*old(state), input.battery) ==> r == DroneMode::Panic,
            !is_battery_low_spec(*old(state), input.battery) ==> final(state).motor_command@
                == flying_motors(*final(state), DroneMode::RawMode, dt_ms),
            exists|a2: DroneState|
                #[trigger] raw_prepared(*old(state), *input, a2) && flying_operated(
                    a2,
                    *final(state),
                    r,
                    iter_count,
                    dt_ms,
                    *input,
                    true,
                    true,
                ),
    {
        state.sensors_dmp.update_sensor_readings_dmp(input.ypr);
        let c = state.calibrated_data;
        let d = state.sensors_dmp;
        let change = crate::controller::q16_sub(
            d.get_dmp_yaw_value(&c).bits,
            d.get_dmp_yaw_value_old(&c).bits,
        );
        let mut t: Vec<u8> = vec![0x64u8, 0x6d, 0x70, 0x3a];
        crate::drone::push_all(&mut t, &crate::fixedpoint::q16_to_text(change));
        let sep: Vec<u8> = vec![0x2cu8, 0x20, 0x72, 0x61, 0x77, 0x3a];
        crate::drone::push_all(&mut t, &sep);
        crate::drone::push_all(&mut t, &crate::fixedpoint::q16_to_text(state.sensors_raw.yaw_der.bits));
        let text = first_bytes(&t, 32);
        state.debug_info = DataT::Message(text);
        let ghost a2 = *state;
        assert(raw_prepared(*old(state), *input, a2));
        flying_operate(state, iter_count, dt_ms, input, true, true)
    }
}

pub struct PanicMode;

impl PanicMode {
    pub fn get_mode() -> (r: DroneMode)
        ensures
            r == DroneMode::Panic,
    {
        DroneMode::Panic
    }

    /// Drains the input, lowers every motor by `panic_motor_reduction`, and
    /// goes to `Safe` once all motors are off.
    pub fn operate(state: &mut DroneState, iter_count: u32, input: &TickInput) -> (r: DroneMode)
        requires
            old(state).wf(),
            old(state).mode == DroneMode::Panic,
        ensures
            step_ok(*final(state), *old(state), r),
            forall|i: int|
                0 <= i < 4 ==> #[trigger] final(state).motor_command@[i] == lowered(
                    old(state).motor_command@[i],
                    old(state).config.panic_motor_reduction,
                ),
            r == DroneMode::Safe <==> forall|i: int|
                0 <= i < 4 ==> #[trigger] final(state).motor_command@[i] == 0,
            r == DroneMode::Safe || r == DroneMode::Panic,
            panic_operated(*old(state), *final(state), r, iter_count, *input),
    {
        panic_check_for_input(state);
        let ghost mid = *state;
        let mc = state.get_motors();
        let new_mc = decrease_motors(mc, state.config.panic_motor_reduction);
        state.set_motors(new_mc);
        let now = state.get_motors();
        assert(now@ =~= lowered_all(old(state).motor_command@, old(state).config.panic_motor_reduction));
        if are_motors_zero(now) {
            assert(state.motor_command@ =~= zero_motors());
            assert(panic_input(*old(state), mid) && finished(
                mid,
                *state,
                DroneMode::Safe,
                DroneMode::Panic,
                iter_count,
                input.battery,
                lowered_all(old(state).motor_command@, old(state).config.panic_motor_reduction),
            ));
            DroneMode::Safe
        } else {
            let ghost before = state.motor_command;
            do_periodic(state, iter_count, input.battery);
            assert(state.motor_command == before);
            assert(!(forall|i: int| 0 <= i < 4 ==> #[trigger] now@[i] == 0));
            assert(state.motor_command@ != zero_motors()) by {
                if state.motor_command@ == zero_motors() {
                    assert(now@[0] == 0 && now@[1] == 0 && now@[2] == 0 && now@[3] == 0);
                }
            }
            assert(panic_input(*old(state), mid) && finished(
                mid,
                *state,
                DroneMode::Panic,
                DroneMode::Panic,
                iter_count,
                input.battery,
                lowered_all(old(state).motor_command@, old(state).config.panic_motor_reduction),
            ));
            DroneMode::Panic
        }
    }
}

pub struct CalibrateMode;

impl CalibrateMode {
    pub fn new() -> (r: Self) {
        CalibrateMode
    }

    pub fn get_mode() -> (r: DroneMode)
        ensures
            r == DroneMode::Calibrate,
    {
        DroneMode::Calibrate
    }

    /// Turns the readings taken at rest into offsets and goes to `Panic`,
    /// so that the pilot re-arms from `Safe`. Without readings it waits in
    /// `Calibrate`; on a low battery it goes to `Panic` at once.
    pub fn operate(state: &mut DroneState, input: &TickInput) -> (r: DroneMode)
        requires
            old(state).wf(),
            old(state).mode == DroneMode::Calibrate,
        ensures
            step_ok(*final(state), *old(state), r),
            is_battery_low_spec(*old(state), input.battery) ==> r == DroneMode::Panic,
            !is_battery_low_spec(*old(state), input.battery) && 0 < input.calibration@.len()
                <= i16::MAX ==> r == DroneMode::Panic && final(state).calibrated_data.is_calibrated,
            !is_battery_low_spec(*old(state), input.battery) && !(0 < input.calibration@.len()
                <= i16::MAX) ==> r == DroneMode::Calibrate && *final(state) == *old(state),
            calibrate_operated(*old(state), *final(state), r, *input),
    {
        if is_battery_low(state, input.battery) {
            return DroneMode::Panic;
        }
        let n = input.calibration.len();
        if n == 0 || n > 32767 {
            return DroneMode::Calibrate;
        }
        state.calibrated_data.calibrate(&input.calibration);
        DroneMode::Panic
    }
}

/// The state after this tick's sensor readings: the filter and the motion
/// processor's reading while logging, the filter alone in `RawMode`, the
/// motion processor's reading otherwise.
pub open spec fn sensed(a: DroneState, input: TickInput) -> DroneState {
    let raw = filtered(
        a.sensors_raw,
        corrected_accel(a.calibrated_data, input.accel@),
        corrected_gyro(a.calibrated_data, input.gyro@),
    );
    if a.log_on {
        DroneState { sensors_raw: raw, sensors_dmp: dmp_updated(a.sensors_dmp, input.ypr), ..a }
    } else if a.mode == DroneMode::RawMode {
        DroneState { sensors_raw: raw, ..a }
    } else {
        DroneState { sensors_dmp: dmp_updated(a.sensors_dmp, input.ypr), ..a }
    }
}

/// One mode step of a dispatch: the state before the readings, the state
/// after the step, and the mode the step named.
pub type Step = (DroneState, DroneState, DroneMode);

/// The step ran as its mode says, after this tick's readings.
pub open spec fn step_holds(x: Step, iter: u32, dt_ms: u32, input: TickInput) -> bool {
    mode_step(sensed(x.0, input), x.1, x.2, iter, dt_ms, input)
}

/// Step `x` named another mode, and `y` starts from its end with that mode
/// and the `Mode` message sent.
pub open spec fn switched(x: Step, y: Step) -> bool {
    &&& x.2 != x.0.mode
    &&& y.0 == (DroneState { mode: x.2, outbox: y.0.outbox, ..x.1 })
    &&& y.0.outbox@ == sent(x.1.outbox@, DataT::Mode(x.2))
}

/// Dispatching from `a` ends in `b` through the steps `t`: the readings are
/// taken and the current mode's step runs; when it names another mode, the
/// mode changes, `Mode(r)` is sent and the next step starts; the last step
/// keeps its mode.
pub open spec fn dispatch_trace(
    a: DroneState,
    b: DroneState,
    iter: u32,
    dt_ms: u32,
    input: TickInput,
    t: Seq<Step>,
) -> bool {
    &&& t.len() > 0
    &&& t[0].0 == a
    &&& forall|i: int| 0 <= i < t.len() ==> #[trigger] step_holds(t[i], iter, dt_ms, input)
    &&& forall|i: int| 0 <= i < t.len() - 1 ==> #[trigger] switched(t[i], t[i + 1])
    &&& t.last().2 == t.last().0.mode
    &&& b == t.last().1
}

/// A tick after `tick_begin`, from `a` to `b` through `s1` and `s2`: a
/// missed deadline (`dt_ms > 10`) is reported (`s1`), the log report
/// advances (`s2`), and the dispatch runs.
pub open spec fn ticked(
    a: DroneState,
    s1: DroneState,
    s2: DroneState,
    b: DroneState,
    iter: u32,
    dt_ms: u32,
    input: TickInput,
) -> bool {
    &&& s1 == (DroneState { outbox: s1.outbox, ..a })
    &&& s1.outbox@ == if dt_ms > 10 {
        noted(a.outbox@, Note::DeadlineMissed)
    } else {
        a.outbox@
    }
    &&& reported(s1, s2, iter, input.report_record)
    &&& exists|t: Seq<Step>| #[trigger] dispatch_trace(s2, b, iter, dt_ms, input, t)
}

impl DroneState {
    /// Runs the current mode's step; when it names another mode, switches,
    /// reports the new mode and runs that mode's step in the same tick.
    #[verifier::rlimit(100)]
    pub fn dispatch_mode(&mut self, iter_count: u32, dt_ms: u32, input: &TickInput)
        requires
            old(self).wf(),
            1 <= dt_ms <= 32767,
        ensures
            final(self).wf(),
            final(self).pipe@.len() <= old(self).pipe@.len(),
            final(self).pipe.capacity() == old(self).pipe.capacity(),
            exists|t: Seq<Step>| #[trigger] dispatch_trace(*old(self), *final(self), iter_count, dt_ms, *input, t),
        decreases old(self).pipe@.len(), rank(old(self).mode),
    {
        let ghost a = *self;
        if self.log_on {
            self.sensors_raw.update_sensor_readings_raw(&self.calibrated_data, input.accel, input.gyro);
            self.sensors_dmp.update_sensor_readings_dmp(input.ypr);
        } else if self.mode == DroneMode::RawMode {
            self.sensors_raw.update_sensor_readings_raw(&self.calibrated_data, input.accel, input.gyro);
        } else {
            self.sensors_dmp.update_sensor_readings_dmp(input.ypr);
        }
        let current = self.mode;
        let new_mode = match current {
            DroneMode::Safe => SafeMode::operate(self, iter_count, input),
            DroneMode::Manual => ManualMode::operate(self, iter_count, dt_ms, input),
            DroneMode::Panic => PanicMode::operate(self, iter_count, input),
            DroneMode::Calibrate => CalibrateMode::operate(self, input),
            DroneMode::YawControl => YawControlMode::operate(self, iter_count, dt_ms, input),
            DroneMode::FullControl => FullControlMode::operate(self, iter_count, dt_ms, input),
            DroneMode::RawMode => RawMode::operate(self, iter_count, dt_ms, input),
        };
        let ghost mid = *self;
        assert(mode_step(sensed(a, *input), mid, new_mode, iter_count, dt_ms, *input)) by {
            reveal(mode_step);
        }
        if new_mode != current {
            self.mode = new_mode;
            self.send_data(DataT::Mode(new_mode));
            let ghost m2 = *self;
            self.dispatch_mode(iter_count, dt_ms, input);
            proof {
                let t2 = choose|t: Seq<Step>| #[trigger] dispatch_trace(m2, *self, iter_count, dt_ms, *input, t);
                let t = seq![(a, mid, new_mode)] + t2;
                assert(step_holds(t[0], iter_count, dt_ms, *input));
                assert forall|i: int| 0 <= i < t.len() implies #[trigger] step_holds(t[i], iter_count, dt_ms, *input) by {
                    if i > 0 {
                        assert(t[i] == t2[i - 1]);
                    }
                }
                assert(switched(t[0], t[1]));
                assert forall|i: int| 0 <= i < t.len() - 1 implies #[trigger] switched(t[i], t[i + 1]) by {
                    if i > 0 {
                        assert(t[i] == t2[i - 1]);
                        assert(t[i + 1] == t2[i]);
                        assert(switched(t2[i - 1], t2[(i - 1) + 1]));
                    } else {
                        assert(switched(t[0], t[1]));
                    }
                }
                assert(t.last() == t2.last());
                assert(dispatch_trace(a, *self, iter_count, dt_ms, *input, t));
            }
        } else {
            proof {
                let t = seq![(a, mid, new_mode)];
                assert(step_holds(t[0], iter_count, dt_ms, *input));
                assert(dispatch_trace(a, *self, iter_count, dt_ms, *input, t));
            }
        }
    }

    /// The start of a tick: one more tick without a keep-alive, the forced
    /// switch to `Panic` when the link is lost in a flying or calibrating
    /// mode, and the log record of this tick queued in `flash_writes`.
    pub fn tick_begin(&mut self, accel: [i16; 3], gyro: [i16; 3])
        requires
            old(self).wf(),
        ensures
            final(self).wf(),
            final(self).ticks_since_last_ka == if old(self).ticks_since_last_ka < u32::MAX {
                (old(self).ticks_since_last_ka + 1) as u32
            } else {
                u32::MAX
            },
            final(self).mode == if final(self).ticks_since_last_ka > old(self).config.max_ticks_no_ka
                && old(self).mode != DroneMode::Safe && old(self).mode != DroneMode::Panic {
                DroneMode::Panic
            } else {
                old(self).mode
            },
            *final(self) == (DroneState {
                ticks_since_last_ka: final(self).ticks_since_last_ka,
                mode: final(self).mode,
                flash_writes: final(self).flash_writes,
                ..*old(self)
            }),
            !old(self).log_on ==> final(self).flash_writes == old(self).flash_writes,
            old(self).log_on ==> {
                &&& final(self).flash_writes@.drop_last() == old(self).flash_writes@
                &&& final(self).flash_writes@.len() == old(self).flash_writes@.len() + 1
                &&& final(self).flash_writes@.last().address == old(self).flash_iterator
                &&& final(self).flash_writes@.last().bytes@ == crate::drone::record_bytes(
                    crate::drone::log_fields(
                        old(self).calibrated_data,
                        old(self).sensors_dmp.sensor_new,
                        accel@,
                        gyro@,
                    ),
                )
            },
    {
        self.tick_time_since_keep_alive();
        if !self.check_alive() && self.mode != DroneMode::Safe && self.mode != DroneMode::Panic {
            self.mode = DroneMode::Panic;
        }
        self.log_if_enabled(accel, gyro);
    }

    /// The rest of a tick, once the flash writes queued by `tick_begin`
    /// were done and reported: a missed deadline (`dt_ms > 10`) is
    /// reported, the log report advances, and the current mode runs.
    pub fn tick(&mut self, iter_count: u32, dt_ms: u32, input: &TickInput)
        requires
            old(self).wf(),
            1 <= dt_ms <= 32767,
        ensures
            final(self).wf(),
            final(self).pipe@.len() <= old(self).pipe@.len(),
            exists|s1: DroneState, s2: DroneState|
                #[trigger] ticked(*old(self), s1, s2, *final(self), iter_count, dt_ms, *input),
    {
        let ghost a = *self;
        if dt_ms > 10 {
            self.send_note(Note::DeadlineMissed);
        }
        let ghost s1 = *self;
        self.log_report_if_enabled(iter_count, input.report_record);
        let ghost s2 = *self;
        self.dispatch_mode(iter_count, dt_ms, input);
        assert(ticked(a, s1, s2, *self, iter_count, dt_ms, *input));
    }
}

} // verus!
