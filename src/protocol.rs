//! Messages exchanged between the ground station and the drone, and their
//! wire format: a one-byte tag, then the fields in order, integers
//! little-endian at their fixed width, `Q16` values as their 32 raw bits,
//! text as a length byte followed by at most 32 bytes.
use vstd::prelude::*;
use crate::codec::{frame, unframe, unframe_result, frame_bytes, Error};

verus! {

/// Capacity of a text message, in bytes.
pub const DEFAULT_CAP: usize = 32;

/// Flight modes of the drone.
#[derive(Debug, PartialEq, Eq, Structural, Clone, Copy)]
pub enum DroneMode {
    Safe,
    Manual,
    Panic,
    Calibrate,
    YawControl,
    FullControl,
    RawMode,
}

/// A signed fixed-point number with 16 fraction bits, held as its raw bits.
#[derive(Debug, PartialEq, Eq, Structural, Clone, Copy)]
pub struct Q16 {
    pub bits: i32,
}

#[derive(Debug, PartialEq, Eq, Structural, Clone, Copy)]
pub struct UpdateP1P2DT {
    pub p1: Q16,
    pub p2: Q16,
}

#[derive(Debug, PartialEq, Eq, Structural, Clone, Copy)]
pub struct UpdatePDT {
    pub p: Q16,
}

#[derive(Debug, PartialEq, Eq, Structural, Clone, Copy)]
pub struct CalculatedErrors {
    pub yaw_error: Q16,
    pub pitch_error: Q16,
    pub roll_error: Q16,
}

#[derive(Debug, PartialEq, Eq, Structural, Clone, Copy)]
pub struct SensorValuesDT {
    pub gyro_pitch: Q16,
    pub gyro_roll: Q16,
    pub gyro_yaw: Q16,
    pub accel_x: i16,
    pub accel_y: i16,
    pub accel_z: i16,
}

#[derive(Debug, PartialEq, Eq, Structural, Clone, Copy)]
pub struct CalibratedValuesDT {
    pub gyro_pitch_offset: Q16,
    pub gyro_roll_offset: Q16,
    pub gyro_yaw_offset: Q16,
    pub accel_x_offset: i16,
    pub accel_y_offset: i16,
    pub accel_z_offset: i16,
}

#[derive(Debug, PartialEq, Eq, Structural, Clone, Copy)]
pub struct ControlDT {
    pub lift: u16,
    pub roll: u16,
    pub pitch: u16,
    pub yaw: u16,
}

#[derive(Debug, PartialEq, Eq, Structural, Clone, Copy)]
pub struct TuningDT {
    pub p: Q16,
    pub i: Q16,
    pub d: Q16,
}

#[derive(Debug, PartialEq, Eq, Structural, Clone, Copy)]
pub struct SensorDT {
    pub sp: u8,
    pub sq: u8,
    pub sr: u8,
    pub sax: u8,
    pub say: u8,
    pub saz: u8,
}

#[derive(Debug, PartialEq, Eq, Structural, Clone, Copy)]
pub struct HealthDT {
    pub bat: u16,
    pub cpu: u8,
    pub pres: u8,
}

#[derive(Debug, PartialEq, Eq, Structural, Clone, Copy)]
pub struct MotorsDT {
    pub ae1: u16,
    pub ae2: u16,
    pub ae3: u16,
    pub ae4: u16,
}

#[derive(Debug, PartialEq, Eq, Structural, Clone, Copy)]
pub enum WarningDT {
    ControlNotNeutral,
    SensorNotCalibrated,
}

#[derive(Debug, PartialEq, Eq, Structural, Clone, Copy)]
pub struct SensorLogDT {
    pub gyro_x: i16,
    pub gyro_y: i16,
    pub gyro_z: i16,
    pub accel_x: i16,
    pub accel_y: i16,
    pub accel_z: i16,
    pub roll: Q16,
    pub pitch: Q16,
    pub yaw: Q16,
}

/// A message between the ground station and the drone.
#[derive(Debug, PartialEq, Eq, Clone)]
pub enum DataT {
    Control(ControlDT),
    Mode(DroneMode),
    Tuning(TuningDT),
    SensorData(SensorDT),
    HealthData(HealthDT),
    MotorsState(MotorsDT),
    Warning(WarningDT),
    /// A text of at most `DEFAULT_CAP` bytes.
    Message(Vec<u8>),
    AckNack(u8),
    KeepAlive,
    Empty,
    CalibratedAck(CalibratedValuesDT),
    SensorReading(SensorValuesDT),
    SonsorNotCalibrated,
    MovementErrors(CalculatedErrors),
    UpdateP(UpdatePDT),
    UpdateP1P2(UpdateP1P2DT),
    StartLogging,
    StopLogging,
    StartLogReporting,
    StopLogReporting,
    SensorLog(SensorLogDT),
}

pub open spec fn mode_tag(m: DroneMode) -> u8 {
    match m {
        DroneMode::Safe => 0,
        DroneMode::Manual => 1,
        DroneMode::Panic => 2,
        DroneMode::Calibrate => 3,
        DroneMode::YawControl => 4,
        DroneMode::FullControl => 5,
        DroneMode::RawMode => 6,
    }
}

pub open spec fn warning_tag(w: WarningDT) -> u8 {
    match w {
        WarningDT::ControlNotNeutral => 0,
        WarningDT::SensorNotCalibrated => 1,
    }
}

pub open spec fn enc_u16(x: u16) -> Seq<u8> {
    seq![(x & 0xff) as u8, (x >> 8) as u8]
}

pub open spec fn enc_i16(x: i16) -> Seq<u8> {
    enc_u16(x as u16)
}

pub open spec fn enc_q16(q: Q16) -> Seq<u8> {
    let u = q.bits as u32;
    seq![(u & 0xff) as u8, ((u >> 8) & 0xff) as u8, ((u >> 16) & 0xff) as u8, (u >> 24) as u8]
}

pub open spec fn enc_3q16(a: Q16, b: Q16, c: Q16) -> Seq<u8> {
    enc_q16(a) + enc_q16(b) + enc_q16(c)
}

pub open spec fn enc_3i16(a: i16, b: i16, c: i16) -> Seq<u8> {
    enc_i16(a) + enc_i16(b) + enc_i16(c)
}

pub open spec fn tag_of(m: DataT) -> u8 {
    match m {
        DataT::Control(_) => 0,
        DataT::Mode(_) => 1,
        DataT::Tuning(_) => 2,
        DataT::SensorData(_) => 3,
        DataT::HealthData(_) => 4,
        DataT::MotorsState(_) => 5,
        DataT::Warning(_) => 6,
        DataT::Message(_) => 7,
        DataT::AckNack(_) => 8,
        DataT::KeepAlive => 9,
        DataT::Empty => 10,
        DataT::CalibratedAck(_) => 11,
        DataT::SensorReading(_) => 12,
        DataT::SonsorNotCalibrated => 13,
        DataT::MovementErrors(_) => 14,
        DataT::UpdateP(_) => 15,
        DataT::UpdateP1P2(_) => 16,
        DataT::StartLogging => 17,
        DataT::StopLogging => 18,
        DataT::StartLogReporting => 19,
        DataT::StopLogReporting => 20,
        DataT::SensorLog(_) => 21,
    }
}

/// The bytes after the tag.
pub open spec fn body_of(m: DataT) -> Seq<u8> {
    match m {
        DataT::Control(c) => enc_u16(c.lift) + enc_u16(c.roll) + enc_u16(c.pitch) + enc_u16(c.yaw),
        DataT::Mode(md) => seq![mode_tag(md)],
        DataT::Tuning(t) => enc_3q16(t.p, t.i, t.d),
        DataT::SensorData(s) => seq![s.sp, s.sq, s.sr, s.sax, s.say, s.saz],
        DataT::HealthData(h) => enc_u16(h.bat) + seq![h.cpu, h.pres],
        DataT::MotorsState(x) => enc_u16(x.ae1) + enc_u16(x.ae2) + enc_u16(x.ae3) + enc_u16(x.ae4),
        DataT::Warning(w) => seq![warning_tag(w)],
        DataT::Message(t) => seq![t@.len() as u8] + t@,
        DataT::AckNack(a) => seq![a],
        DataT::CalibratedAck(c) => enc_3q16(c.gyro_pitch_offset, c.gyro_roll_offset, c.gyro_yaw_offset)
            + enc_3i16(c.accel_x_offset, c.accel_y_offset, c.accel_z_offset),
        DataT::SensorReading(s) => enc_3q16(s.gyro_pitch, s.gyro_roll, s.gyro_yaw) + enc_3i16(
            s.accel_x,
            s.accel_y,
            s.accel_z,
        ),
        DataT::MovementErrors(e) => enc_3q16(e.yaw_error, e.pitch_error, e.roll_error),
        DataT::UpdateP(u) => enc_q16(u.p),
        DataT::UpdateP1P2(u) => enc_q16(u.p1) + enc_q16(u.p2),
        DataT::SensorLog(l) => enc_3i16(l.gyro_x, l.gyro_y, l.gyro_z) + enc_3i16(
            l.accel_x,
            l.accel_y,
            l.accel_z,
        ) + enc_3q16(l.roll, l.pitch, l.yaw),
        _ => seq![],
    }
}

/// The encoded form of a message.
pub open spec fn encoding(m: DataT) -> Seq<u8> {
    seq![tag_of(m)] + body_of(m)
}

impl DataT {
    /// A message is well formed when its text fits in `DEFAULT_CAP` bytes.
    pub open spec fn wf(&self) -> bool {
        match self {
            DataT::Message(t) => t@.len() <= DEFAULT_CAP,
            _ => true,
        }
    }
}


/// Length of the body for each tag whose body has a fixed size.
pub open spec fn fixed_len(t: u8) -> int {
    if t == 0 || t == 5 || t == 16 {
        8
    } else if t == 1 || t == 6 || t == 8 {
        1
    } else if t == 2 || t == 14 {
        12
    } else if t == 3 {
        6
    } else if t == 4 || t == 15 {
        4
    } else if t == 11 || t == 12 {
        18
    } else if t == 21 {
        24
    } else {
        0
    }
}

proof fn lemma_encoding_shape(m: DataT)
    requires
        m.wf(),
    ensures
        encoding(m).len() >= 1,
        encoding(m)[0] == tag_of(m),
        tag_of(m) < 22,
        tag_of(m) != 7 ==> encoding(m).len() == 1 + fixed_len(tag_of(m)),
        tag_of(m) == 7 ==> encoding(m).len() >= 2 && encoding(m)[1] <= 32 && encoding(m).len()
            == 2 + encoding(m)[1],
        tag_of(m) == 1 ==> encoding(m)[1] < 7,
        tag_of(m) == 6 ==> encoding(m)[1] < 2,
{
    match m {
        DataT::Message(t) => {
            assert(encoding(m)[1] == t@.len() as u8);
        },
        _ => {},
    }
}

fn put_u16(out: &mut Vec<u8>, x: u16)
    ensures
        final(out)@ == old(out)@ + enc_u16(x),
{
    out.push((x & 0xff) as u8);
    out.push((x >> 8) as u8);
    assert(final(out)@ =~= old(out)@ + enc_u16(x));
}

fn put_i16(out: &mut Vec<u8>, x: i16)
    ensures
        final(out)@ == old(out)@ + enc_i16(x),
{
    put_u16(out, x as u16);
}

fn put_q16(out: &mut Vec<u8>, q: Q16)
    ensures
        final(out)@ == old(out)@ + enc_q16(q),
{
    let u = q.bits as u32;
    out.push((u & 0xff) as u8);
    out.push(((u >> 8) & 0xff) as u8);
    out.push(((u >> 16) & 0xff) as u8);
    out.push((u >> 24) as u8);
    assert(final(out)@ =~= old(out)@ + enc_q16(q));
}

fn put_3q16(out: &mut Vec<u8>, a: Q16, b: Q16, c: Q16)
    ensures
        final(out)@ == old(out)@ + enc_3q16(a, b, c),
{
    put_q16(out, a);
    put_q16(out, b);
    put_q16(out, c);
    assert(final(out)@ =~= old(out)@ + enc_3q16(a, b, c));
}

fn put_3i16(out: &mut Vec<u8>, a: i16, b: i16, c: i16)
    ensures
        final(out)@ == old(out)@ + enc_3i16(a, b, c),
{
    put_i16(out, a);
    put_i16(out, b);
    put_i16(out, c);
    assert(final(out)@ =~= old(out)@ + enc_3i16(a, b, c));
}

/// Encodes a message in its wire format.
pub fn encode_message(m: &DataT) -> (r: Vec<u8>)
    requires
        m.wf(),
    ensures
        r@ == encoding(*m),
{
    let mut out: Vec<u8> = Vec::new();
    match m {
        DataT::Control(c) => {
            out.push(0);
            put_u16(&mut out, c.lift);
            put_u16(&mut out, c.roll);
            put_u16(&mut out, c.pitch);
            put_u16(&mut out, c.yaw);
        },
        DataT::Mode(md) => {
            out.push(1);
            let t: u8 = match md {
                DroneMode::Safe => 0,
                DroneMode::Manual => 1,
                DroneMode::Panic => 2,
                DroneMode::Calibrate => 3,
                DroneMode::YawControl => 4,
                DroneMode::FullControl => 5,
                DroneMode::RawMode => 6,
            };
            out.push(t);
        },
        DataT::Tuning(t) => {
            out.push(2);
            put_3q16(&mut out, t.p, t.i, t.d);
        },
        DataT::SensorData(x) => {
            out.push(3);
            out.push(x.sp);
            out.push(x.sq);
            out.push(x.sr);
            out.push(x.sax);
            out.push(x.say);
            out.push(x.saz);
        },
        DataT::HealthData(h) => {
            out.push(4);
            put_u16(&mut out, h.bat);
            out.push(h.cpu);
            out.push(h.pres);
        },
        DataT::MotorsState(x) => {
            out.push(5);
            put_u16(&mut out, x.ae1);
            put_u16(&mut out, x.ae2);
            put_u16(&mut out, x.ae3);
            put_u16(&mut out, x.ae4);
        },
        DataT::Warning(w) => {
            out.push(6);
            let t: u8 = match w {
                WarningDT::ControlNotNeutral => 0,
                WarningDT::SensorNotCalibrated => 1,
            };
            out.push(t);
        },
        DataT::Message(t) => {
            out.push(7);
            out.push(t.len() as u8);
            let mut i: usize = 0;
            while i < t.len()
                invariant
                    i <= t@.len(),
                    out@ == seq![7u8, t@.len() as u8] + t@.take(i as int),
                decreases t@.len() - i,
            {
                out.push(t[i]);
                i = i + 1;
                assert(out@ =~= seq![7u8, t@.len() as u8] + t@.take(i as int));
            }
            assert(t@.take(t@.len() as int) =~= t@);
        },
        DataT::AckNack(a) => {
            out.push(8);
            out.push(*a);
        },
        DataT::KeepAlive => {
            out.push(9);
        },
        DataT::Empty => {
            out.push(10);
        },
        DataT::CalibratedAck(c) => {
            out.push(11);
            put_3q16(&mut out, c.gyro_pitch_offset, c.gyro_roll_offset, c.gyro_yaw_offset);
            put_3i16(&mut out, c.accel_x_offset, c.accel_y_offset, c.accel_z_offset);
        },
        DataT::SensorReading(x) => {
            out.push(12);
            put_3q16(&mut out, x.gyro_pitch, x.gyro_roll, x.gyro_yaw);
            put_3i16(&mut out, x.accel_x, x.accel_y, x.accel_z);
        },
        DataT::SonsorNotCalibrated => {
            out.push(13);
        },
        DataT::MovementErrors(e) => {
            out.push(14);
            put_3q16(&mut out, e.yaw_error, e.pitch_error, e.roll_error);
        },
        DataT::UpdateP(u) => {
            out.push(15);
            put_q16(&mut out, u.p);
        },
        DataT::UpdateP1P2(u) => {
            out.push(16);
            put_q16(&mut out, u.p1);
            put_q16(&mut out, u.p2);
        },
        DataT::StartLogging => {
            out.push(17);
        },
        DataT::StopLogging => {
            out.push(18);
        },
        DataT::StartLogReporting => {
            out.push(19);
        },
        DataT::StopLogReporting => {
            out.push(20);
        },
        DataT::SensorLog(l) => {
            out.push(21);
            put_3i16(&mut out, l.gyro_x, l.gyro_y, l.gyro_z);
            put_3i16(&mut out, l.accel_x, l.accel_y, l.accel_z);
            put_3q16(&mut out, l.roll, l.pitch, l.yaw);
        },
    }
    assert(out@ =~= encoding(*m));
    out
}


fn get_u16(b: &Vec<u8>, i: usize) -> (r: u16)
    requires
        i + 2 <= b@.len(),
    ensures
        enc_u16(r) == b@.subrange(i as int, i + 2),
{
    let _n = b.len();
    let lo = b[i];
    let hi = b[i + 1];
    let r = (lo as u16) | ((hi as u16) << 8);
    assert(((lo as u16) | ((hi as u16) << 8)) & 0xff == lo as u16) by (bit_vector);
    assert(((lo as u16) | ((hi as u16) << 8)) >> 8 == hi as u16) by (bit_vector);
    assert(enc_u16(r) =~= b@.subrange(i as int, i + 2));
    r
}

fn get_i16(b: &Vec<u8>, i: usize) -> (r: i16)
    requires
        i + 2 <= b@.len(),
    ensures
        enc_i16(r) == b@.subrange(i as int, i + 2),
{
    let u = get_u16(b, i);
    assert((u as i16) as u16 == u) by (bit_vector);
    u as i16
}

fn get_q16(b: &Vec<u8>, i: usize) -> (r: Q16)
    requires
        i + 4 <= b@.len(),
    ensures
        enc_q16(r) == b@.subrange(i as int, i + 4),
{
    let _n = b.len();
    let b0 = b[i] as u32;
    let b1 = b[i + 1] as u32;
    let b2 = b[i + 2] as u32;
    let b3 = b[i + 3] as u32;
    let u = b0 | (b1 << 8) | (b2 << 16) | (b3 << 24);
    assert(u & 0xff == b0 && (u >> 8) & 0xff == b1 && (u >> 16) & 0xff == b2 && u >> 24 == b3)
        by (bit_vector)
        requires
            u == b0 | (b1 << 8) | (b2 << 16) | (b3 << 24),
            b0 < 256,
            b1 < 256,
            b2 < 256,
            b3 < 256,
    ;
    assert((u as i32) as u32 == u) by (bit_vector);
    let r = Q16 { bits: u as i32 };
    assert(enc_q16(r) =~= b@.subrange(i as int, i + 4));
    r
}

fn get_3q16(b: &Vec<u8>, i: usize) -> (r: (Q16, Q16, Q16))
    requires
        i + 12 <= b@.len(),
    ensures
        enc_3q16(r.0, r.1, r.2) == b@.subrange(i as int, i + 12),
{
    let _n = b.len();
    let x = get_q16(b, i);
    let y = get_q16(b, i + 4);
    let z = get_q16(b, i + 8);
    assert(enc_3q16(x, y, z) =~= b@.subrange(i as int, i + 12));
    (x, y, z)
}

fn get_3i16(b: &Vec<u8>, i: usize) -> (r: (i16, i16, i16))
    requires
        i + 6 <= b@.len(),
    ensures
        enc_3i16(r.0, r.1, r.2) == b@.subrange(i as int, i + 6),
{
    let _n = b.len();
    let x = get_i16(b, i);
    let y = get_i16(b, i + 2);
    let z = get_i16(b, i + 4);
    assert(enc_3i16(x, y, z) =~= b@.subrange(i as int, i + 6));
    (x, y, z)
}

/// Decodes a message from exactly the bytes of its encoding.
///
/// Returns `None` exactly when no well-formed message encodes to `b`.
pub fn decode_message(b: &Vec<u8>) -> (r: Option<DataT>)
    ensures
        r matches Some(m) ==> m.wf() && encoding(m) == b@,
        r is None ==> forall|m: DataT| m.wf() ==> #[trigger] encoding(m) != b@,
{
    let n = b.len();
    if n == 0 {
        proof {
            assert forall|m: DataT| m.wf() implies #[trigger] encoding(m) != b@ by {
                lemma_encoding_shape(m);
            }
        }
        return None;
    }
    let t = b[0];
    let ok_len: bool = if t == 7 {
        n >= 2 && b[1] <= 32 && n == 2 + b[1] as usize
    } else if t == 1 {
        n == 2 && b[1] < 7
    } else if t == 6 {
        n == 2 && b[1] < 2
    } else {
        t < 22 && n == 1 + fixed_len_of(t)
    };
    if !ok_len {
        proof {
            assert forall|m: DataT| m.wf() implies #[trigger] encoding(m) != b@ by {
                lemma_encoding_shape(m);
                if encoding(m) == b@ {
                    assert(tag_of(m) == t);
                }
            }
        }
        return None;
    }
    let m: DataT = if t == 0 {
        DataT::Control(
            ControlDT {
                lift: get_u16(b, 1),
                roll: get_u16(b, 3),
                pitch: get_u16(b, 5),
                yaw: get_u16(b, 7),
            },
        )
    } else if t == 1 {
        let md = b[1];
        DataT::Mode(
            if md == 0 {
                DroneMode::Safe
            } else if md == 1 {
                DroneMode::Manual
            } else if md == 2 {
                DroneMode::Panic
            } else if md == 3 {
                DroneMode::Calibrate
            } else if md == 4 {
                DroneMode::YawControl
            } else if md == 5 {
                DroneMode::FullControl
            } else {
                DroneMode::RawMode
            },
        )
    } else if t == 2 {
        let (p, i, d) = get_3q16(b, 1);
        DataT::Tuning(TuningDT { p, i, d })
    } else if t == 3 {
        DataT::SensorData(
            SensorDT { sp: b[1], sq: b[2], sr: b[3], sax: b[4], say: b[5], saz: b[6] },
        )
    } else if t == 4 {
        DataT::HealthData(HealthDT { bat: get_u16(b, 1), cpu: b[3], pres: b[4] })
    } else if t == 5 {
        DataT::MotorsState(
            MotorsDT {
                ae1: get_u16(b, 1),
                ae2: get_u16(b, 3),
                ae3: get_u16(b, 5),
                ae4: get_u16(b, 7),
            },
        )
    } else if t == 6 {
        DataT::Warning(
            if b[1] == 0 {
                WarningDT::ControlNotNeutral
            } else {
                WarningDT::SensorNotCalibrated
            },
        )
    } else if t == 7 {
        DataT::Message(copy_tail(b, 2))
    } else if t == 8 {
        DataT::AckNack(b[1])
    } else if t == 9 {
        DataT::KeepAlive
    } else if t == 10 {
        DataT::Empty
    } else if t == 11 {
        let (gp, gr, gy) = get_3q16(b, 1);
        let (ax, ay, az) = get_3i16(b, 13);
        DataT::CalibratedAck(
            CalibratedValuesDT {
                gyro_pitch_offset: gp,
                gyro_roll_offset: gr,
                gyro_yaw_offset: gy,
                accel_x_offset: ax,
                accel_y_offset: ay,
                accel_z_offset: az,
            },
        )
    } else if t == 12 {
        let (gp, gr, gy) = get_3q16(b, 1);
        let (ax, ay, az) = get_3i16(b, 13);
        DataT::SensorReading(
            SensorValuesDT {
                gyro_pitch: gp,
                gyro_roll: gr,
                gyro_yaw: gy,
                accel_x: ax,
                accel_y: ay,
                accel_z: az,
            },
        )
    } else if t == 13 {
        DataT::SonsorNotCalibrated
    } else if t == 14 {
        let (y, p, r) = get_3q16(b, 1);
        DataT::MovementErrors(CalculatedErrors { yaw_error: y, pitch_error: p, roll_error: r })
    } else if t == 15 {
        DataT::UpdateP(UpdatePDT { p: get_q16(b, 1) })
    } else if t == 16 {
        DataT::UpdateP1P2(UpdateP1P2DT { p1: get_q16(b, 1), p2: get_q16(b, 5) })
    } else if t == 17 {
        DataT::StartLogging
    } else if t == 18 {
        DataT::StopLogging
    } else if t == 19 {
        DataT::StartLogReporting
    } else if t == 20 {
        DataT::StopLogReporting
    } else {
        let (gx, gy, gz) = get_3i16(b, 1);
        let (ax, ay, az) = get_3i16(b, 7);
        let (r, p, y) = get_3q16(b, 13);
        DataT::SensorLog(
            SensorLogDT {
                gyro_x: gx,
                gyro_y: gy,
                gyro_z: gz,
                accel_x: ax,
                accel_y: ay,
                accel_z: az,
                roll: r,
                pitch: p,
                yaw: y,
            },
        )
    };
    assert(encoding(m) =~= b@);
    Some(m)
}

fn fixed_len_of(t: u8) -> (r: usize)
    ensures
        r == fixed_len(t),
{
    if t == 0 || t == 5 || t == 16 {
        8
    } else if t == 1 || t == 6 || t == 8 {
        1
    } else if t == 2 || t == 14 {
        12
    } else if t == 3 {
        6
    } else if t == 4 || t == 15 {
        4
    } else if t == 11 || t == 12 {
        18
    } else if t == 21 {
        24
    } else {
        0
    }
}

/// The bytes of `b` from `lo` on.
fn copy_tail(b: &Vec<u8>, lo: usize) -> (r: Vec<u8>)
    requires
        lo <= b@.len(),
    ensures
        r@ == b@.subrange(lo as int, b@.len() as int),
{
    let mut r: Vec<u8> = Vec::new();
    let mut i: usize = lo;
    while i < b.len()
        invariant
            lo <= i <= b@.len(),
            r@ == b@.subrange(lo as int, i as int),
        decreases b@.len() - i,
    {
        r.push(b[i]);
        i = i + 1;
        assert(r@ =~= b@.subrange(lo as int, i as int));
    }
    r
}


/// What unframing and decoding the frame `f` may return: the message whose
/// encoding the frame carries, the codec's error, or `Des` when the payload
/// encodes no message.
pub open spec fn decoded(f: Seq<u8>, r: Result<DataT, Error>) -> bool {
    match r {
        Ok(m) => m.wf() && unframe_result(f) == Ok::<Seq<u8>, Error>(encoding(m)),
        Err(e) => match unframe_result(f) {
            Err(e2) => e == e2,
            Ok(p) => e == Error::Des && forall|m: DataT| m.wf() ==> #[trigger] encoding(m) != p,
        },
    }
}

impl DataT {
    /// Encodes the message and frames it. Fails with `ENOMEM` exactly when
    /// the encoding or the frame is longer than `cap`.
    pub fn to_packet(&self, cap: usize) -> (r: Result<Vec<u8>, Error>)
        requires
            self.wf(),
        ensures
            r.is_ok() <==> encoding(*self).len() <= cap && frame_bytes(encoding(*self)).len()
                <= cap,
            r matches Ok(f) ==> f@ == frame_bytes(encoding(*self)),
            r matches Err(e) ==> e == Error::ENOMEM,
    {
        proof {
            lemma_encoding_shape(*self);
        }
        let bytes = encode_message(self);
        if bytes.len() > cap {
            proof {
                crate::codec::lemma_frame_shape(encoding(*self));
                assert(frame_bytes(encoding(*self)).len() >= encoding(*self).len()) by {
                    crate::codec::lemma_stuff_len(crate::codec::packet_bytes(encoding(*self)));
                }
            }
            return Err(Error::ENOMEM);
        }
        frame(&bytes, cap)
    }

    /// Unframes a frame and decodes the message in it. Fails with the
    /// codec's error, or with `Des` when the payload encodes no message.
    pub fn from_packet(f: &Vec<u8>) -> (r: Result<DataT, Error>)
        ensures
            decoded(f@, r),
    {
        let payload = unframe(f)?;
        match decode_message(&payload) {
            Some(m) => Ok(m),
            None => Err(Error::Des),
        }
    }
}

/// A framed message unframes to its encoding.
pub proof fn lemma_packet_round_trip(m: DataT)
    requires
        m.wf(),
    ensures
        unframe_result(frame_bytes(encoding(m))) == Ok::<Seq<u8>, Error>(encoding(m)),
{
    lemma_encoding_shape(m);
    crate::codec::lemma_unframe_frame(encoding(m));
}

/// Equal messages; texts are compared by their bytes.
pub open spec fn same_message(a: DataT, b: DataT) -> bool {
    match a {
        DataT::Message(x) => match b {
            DataT::Message(y) => x@ == y@,
            _ => false,
        },
        _ => a == b,
    }
}

proof fn lemma_u16_injective(a: u16, b: u16)
    requires
        enc_u16(a) == enc_u16(b),
    ensures
        a == b,
{
    assert(enc_u16(a)[0] == enc_u16(b)[0] && enc_u16(a)[1] == enc_u16(b)[1]);
    assert(((a & 0xff) as u8 == (b & 0xff) as u8 && (a >> 8) as u8 == (b >> 8) as u8) ==> a == b)
        by (bit_vector);
}

proof fn lemma_i16_injective(a: i16, b: i16)
    requires
        enc_i16(a) == enc_i16(b),
    ensures
        a == b,
{
    lemma_u16_injective(a as u16, b as u16);
    assert((a as u16) == (b as u16) ==> a == b) by (bit_vector);
}

proof fn lemma_q16_injective(a: Q16, b: Q16)
    requires
        enc_q16(a) == enc_q16(b),
    ensures
        a == b,
{
    let u = a.bits as u32;
    let v = b.bits as u32;
    assert(enc_q16(a)[0] == enc_q16(b)[0] && enc_q16(a)[1] == enc_q16(b)[1] && enc_q16(a)[2]
        == enc_q16(b)[2] && enc_q16(a)[3] == enc_q16(b)[3]);
    assert(((u & 0xff) as u8 == (v & 0xff) as u8 && ((u >> 8) & 0xff) as u8 == ((v >> 8) & 0xff) as u8
        && ((u >> 16) & 0xff) as u8 == ((v >> 16) & 0xff) as u8 && (u >> 24) as u8 == (v >> 24) as u8)
        ==> u == v) by (bit_vector);
    let x = a.bits;
    let y = b.bits;
    assert((x as u32) == (y as u32) ==> x == y) by (bit_vector);
}

proof fn lemma_mode_tag_injective(x: DroneMode, y: DroneMode)
    requires
        mode_tag(x) == mode_tag(y),
    ensures
        x == y,
{
    match x {
        DroneMode::Safe => match y {
            DroneMode::Safe => {}, DroneMode::Manual => {}, DroneMode::Panic => {}, DroneMode::Calibrate => {}, DroneMode::YawControl => {}, DroneMode::FullControl => {}, DroneMode::RawMode => {},
        },
        DroneMode::Manual => match y {
            DroneMode::Safe => {}, DroneMode::Manual => {}, DroneMode::Panic => {}, DroneMode::Calibrate => {}, DroneMode::YawControl => {}, DroneMode::FullControl => {}, DroneMode::RawMode => {},
        },
        DroneMode::Panic => match y {
            DroneMode::Safe => {}, DroneMode::Manual => {}, DroneMode::Panic => {}, DroneMode::Calibrate => {}, DroneMode::YawControl => {}, DroneMode::FullControl => {}, DroneMode::RawMode => {},
        },
        DroneMode::Calibrate => match y {
            DroneMode::Safe => {}, DroneMode::Manual => {}, DroneMode::Panic => {}, DroneMode::Calibrate => {}, DroneMode::YawControl => {}, DroneMode::FullControl => {}, DroneMode::RawMode => {},
        },
        DroneMode::YawControl => match y {
            DroneMode::Safe => {}, DroneMode::Manual => {}, DroneMode::Panic => {}, DroneMode::Calibrate => {}, DroneMode::YawControl => {}, DroneMode::FullControl => {}, DroneMode::RawMode => {},
        },
        DroneMode::FullControl => match y {
            DroneMode::Safe => {}, DroneMode::Manual => {}, DroneMode::Panic => {}, DroneMode::Calibrate => {}, DroneMode::YawControl => {}, DroneMode::FullControl => {}, DroneMode::RawMode => {},
        },
        DroneMode::RawMode => match y {
            DroneMode::Safe => {}, DroneMode::Manual => {}, DroneMode::Panic => {}, DroneMode::Calibrate => {}, DroneMode::YawControl => {}, DroneMode::FullControl => {}, DroneMode::RawMode => {},
        },
    }
}

proof fn lemma_warning_tag_injective(x: WarningDT, y: WarningDT)
    requires
        warning_tag(x) == warning_tag(y),
    ensures
        x == y,
{
    match x {
        WarningDT::ControlNotNeutral => match y {
            WarningDT::ControlNotNeutral => {}, WarningDT::SensorNotCalibrated => {},
        },
        WarningDT::SensorNotCalibrated => match y {
            WarningDT::ControlNotNeutral => {}, WarningDT::SensorNotCalibrated => {},
        },
    }
}

proof fn lemma_control_injective(x: ControlDT, y: ControlDT)
    requires
        body_of(DataT::Control(x)) == body_of(DataT::Control(y)),
    ensures
        x == y,
{
    let ba = body_of(DataT::Control(x));
    let bb = body_of(DataT::Control(y));
    assert(ba.subrange(0, 2) =~= enc_u16(x.lift));
    assert(bb.subrange(0, 2) =~= enc_u16(y.lift));
    lemma_u16_injective(x.lift, y.lift);
    assert(ba.subrange(2, 4) =~= enc_u16(x.roll));
    assert(bb.subrange(2, 4) =~= enc_u16(y.roll));
    lemma_u16_injective(x.roll, y.roll);
    assert(ba.subrange(4, 6) =~= enc_u16(x.pitch));
    assert(bb.subrange(4, 6) =~= enc_u16(y.pitch));
    lemma_u16_injective(x.pitch, y.pitch);
    assert(ba.subrange(6, 8) =~= enc_u16(x.yaw));
    assert(bb.subrange(6, 8) =~= enc_u16(y.yaw));
    lemma_u16_injective(x.yaw, y.yaw);
}

proof fn lemma_tuning_injective(x: TuningDT, y: TuningDT)
    requires
        body_of(DataT::Tuning(x)) == body_of(DataT::Tuning(y)),
    ensures
        x == y,
{
    let ba = body_of(DataT::Tuning(x));
    let bb = body_of(DataT::Tuning(y));
    assert(ba.subrange(0, 4) =~= enc_q16(x.p));
    assert(bb.subrange(0, 4) =~= enc_q16(y.p));
    lemma_q16_injective(x.p, y.p);
    assert(ba.subrange(4, 8) =~= enc_q16(x.i));
    assert(bb.subrange(4, 8) =~= enc_q16(y.i));
    lemma_q16_injective(x.i, y.i);
    assert(ba.subrange(8, 12) =~= enc_q16(x.d));
    assert(bb.subrange(8, 12) =~= enc_q16(y.d));
    lemma_q16_injective(x.d, y.d);
}

proof fn lemma_sensor_data_injective(x: SensorDT, y: SensorDT)
    requires
        body_of(DataT::SensorData(x)) == body_of(DataT::SensorData(y)),
    ensures
        x == y,
{
    let ba = body_of(DataT::SensorData(x));
    let bb = body_of(DataT::SensorData(y));
    assert(ba[0] == x.sp && bb[0] == y.sp);
    assert(ba[1] == x.sq && bb[1] == y.sq);
    assert(ba[2] == x.sr && bb[2] == y.sr);
    assert(ba[3] == x.sax && bb[3] == y.sax);
    assert(ba[4] == x.say && bb[4] == y.say);
    assert(ba[5] == x.saz && bb[5] == y.saz);
}

proof fn lemma_health_data_injective(x: HealthDT, y: HealthDT)
    requires
        body_of(DataT::HealthData(x)) == body_of(DataT::HealthData(y)),
    ensures
        x == y,
{
    let ba = body_of(DataT::HealthData(x));
    let bb = body_of(DataT::HealthData(y));
    assert(ba.subrange(0, 2) =~= enc_u16(x.bat));
    assert(bb.subrange(0, 2) =~= enc_u16(y.bat));
    lemma_u16_injective(x.bat, y.bat);
    assert(ba[2] == x.cpu && bb[2] == y.cpu);
    assert(ba[3] == x.pres && bb[3] == y.pres);
}

proof fn lemma_motors_state_injective(x: MotorsDT, y: MotorsDT)
    requires
        body_of(DataT::MotorsState(x)) == body_of(DataT::MotorsState(y)),
    ensures
        x == y,
{
    let ba = body_of(DataT::MotorsState(x));
    let bb = body_of(DataT::MotorsState(y));
    assert(ba.subrange(0, 2) =~= enc_u16(x.ae1));
    assert(bb.subrange(0, 2) =~= enc_u16(y.ae1));
    lemma_u16_injective(x.ae1, y.ae1);
    assert(ba.subrange(2, 4) =~= enc_u16(x.ae2));
    assert(bb.subrange(2, 4) =~= enc_u16(y.ae2));
    lemma_u16_injective(x.ae2, y.ae2);
    assert(ba.subrange(4, 6) =~= enc_u16(x.ae3));
    assert(bb.subrange(4, 6) =~= enc_u16(y.ae3));
    lemma_u16_injective(x.ae3, y.ae3);
    assert(ba.subrange(6, 8) =~= enc_u16(x.ae4));
    assert(bb.subrange(6, 8) =~= enc_u16(y.ae4));
    lemma_u16_injective(x.ae4, y.ae4);
}

proof fn lemma_calibrated_ack_injective(x: CalibratedValuesDT, y: CalibratedValuesDT)
    requires
        body_of(DataT::CalibratedAck(x)) == body_of(DataT::CalibratedAck(y)),
    ensures
        x == y,
{
    let ba = body_of(DataT::CalibratedAck(x));
    let bb = body_of(DataT::CalibratedAck(y));
    assert(ba.subrange(0, 4) =~= enc_q16(x.gyro_pitch_offset));
    assert(bb.subrange(0, 4) =~= enc_q16(y.gyro_pitch_offset));
    lemma_q16_injective(x.gyro_pitch_offset, y.gyro_pitch_offset);
    assert(ba.subrange(4, 8) =~= enc_q16(x.gyro_roll_offset));
    assert(bb.subrange(4, 8) =~= enc_q16(y.gyro_roll_offset));
    lemma_q16_injective(x.gyro_roll_offset, y.gyro_roll_offset);
    assert(ba.subrange(8, 12) =~= enc_q16(x.gyro_yaw_offset));
    assert(bb.subrange(8, 12) =~= enc_q16(y.gyro_yaw_offset));
    lemma_q16_injective(x.gyro_yaw_offset, y.gyro_yaw_offset);
    assert(ba.subrange(12, 14) =~= enc_i16(x.accel_x_offset));
    assert(bb.subrange(12, 14) =~= enc_i16(y.accel_x_offset));
    lemma_i16_injective(x.accel_x_offset, y.accel_x_offset);
    assert(ba.subrange(14, 16) =~= enc_i16(x.accel_y_offset));
    assert(bb.subrange(14, 16) =~= enc_i16(y.accel_y_offset));
    lemma_i16_injective(x.accel_y_offset, y.accel_y_offset);
    assert(ba.subrange(16, 18) =~= enc_i16(x.accel_z_offset));
    assert(bb.subrange(16, 18) =~= enc_i16(y.accel_z_offset));
    lemma_i16_injective(x.accel_z_offset, y.accel_z_offset);
}

proof fn lemma_sensor_reading_injective(x: SensorValuesDT, y: SensorValuesDT)
    requires
        body_of(DataT::SensorReading(x)) == body_of(DataT::SensorReading(y)),
    ensures
        x == y,
{
    let ba = body_of(DataT::SensorReading(x));
    let bb = body_of(DataT::SensorReading(y));
    assert(ba.subrange(0, 4) =~= enc_q16(x.gyro_pitch));
    assert(bb.subrange(0, 4) =~= enc_q16(y.gyro_pitch));
    lemma_q16_injective(x.gyro_pitch, y.gyro_pitch);
    assert(ba.subrange(4, 8) =~= enc_q16(x.gyro_roll));
    assert(bb.subrange(4, 8) =~= enc_q16(y.gyro_roll));
    lemma_q16_injective(x.gyro_roll, y.gyro_roll);
    assert(ba.subrange(8, 12) =~= enc_q16(x.gyro_yaw));
    assert(bb.subrange(8, 12) =~= enc_q16(y.gyro_yaw));
    lemma_q16_injective(x.gyro_yaw, y.gyro_yaw);
    assert(ba.subrange(12, 14) =~= enc_i16(x.accel_x));
    assert(bb.subrange(12, 14) =~= enc_i16(y.accel_x));
    lemma_i16_injective(x.accel_x, y.accel_x);
    assert(ba.subrange(14, 16) =~= enc_i16(x.accel_y));
    assert(bb.subrange(14, 16) =~= enc_i16(y.accel_y));
    lemma_i16_injective(x.accel_y, y.accel_y);
    assert(ba.subrange(16, 18) =~= enc_i16(x.accel_z));
    assert(bb.subrange(16, 18) =~= enc_i16(y.accel_z));
    lemma_i16_injective(x.accel_z, y.accel_z);
}

proof fn lemma_movement_errors_injective(x: CalculatedErrors, y: CalculatedErrors)
    requires
        body_of(DataT::MovementErrors(x)) == body_of(DataT::MovementErrors(y)),
    ensures
        x == y,
{
    let ba = body_of(DataT::MovementErrors(x));
    let bb = body_of(DataT::MovementErrors(y));
    assert(ba.subrange(0, 4) =~= enc_q16(x.yaw_error));
    assert(bb.subrange(0, 4) =~= enc_q16(y.yaw_error));
    lemma_q16_injective(x.yaw_error, y.yaw_error);
    assert(ba.subrange(4, 8) =~= enc_q16(x.pitch_error));
    assert(bb.subrange(4, 8) =~= enc_q16(y.pitch_error));
    lemma_q16_injective(x.pitch_error, y.pitch_error);
    assert(ba.subrange(8, 12) =~= enc_q16(x.roll_error));
    assert(bb.subrange(8, 12) =~= enc_q16(y.roll_error));
    lemma_q16_injective(x.roll_error, y.roll_error);
}

proof fn lemma_update_p_injective(x: UpdatePDT, y: UpdatePDT)
    requires
        body_of(DataT::UpdateP(x)) == body_of(DataT::UpdateP(y)),
    ensures
        x == y,
{
    let ba = body_of(DataT::UpdateP(x));
    let bb = body_of(DataT::UpdateP(y));
    assert(ba.subrange(0, 4) =~= enc_q16(x.p));
    assert(bb.subrange(0, 4) =~= enc_q16(y.p));
    lemma_q16_injective(x.p, y.p);
}

proof fn lemma_update_p1_p2_injective(x: UpdateP1P2DT, y: UpdateP1P2DT)
    requires
        body_of(DataT::UpdateP1P2(x)) == body_of(DataT::UpdateP1P2(y)),
    ensures
        x == y,
{
    let ba = body_of(DataT::UpdateP1P2(x));
    let bb = body_of(DataT::UpdateP1P2(y));
    assert(ba.subrange(0, 4) =~= enc_q16(x.p1));
    assert(bb.subrange(0, 4) =~= enc_q16(y.p1));
    lemma_q16_injective(x.p1, y.p1);
    assert(ba.subrange(4, 8) =~= enc_q16(x.p2));
    assert(bb.subrange(4, 8) =~= enc_q16(y.p2));
    lemma_q16_injective(x.p2, y.p2);
}

proof fn lemma_sensor_log_injective(x: SensorLogDT, y: SensorLogDT)
    requires
        body_of(DataT::SensorLog(x)) == body_of(DataT::SensorLog(y)),
    ensures
        x == y,
{
    let ba = body_of(DataT::SensorLog(x));
    let bb = body_of(DataT::SensorLog(y));
    assert(ba.subrange(0, 2) =~= enc_i16(x.gyro_x));
    assert(bb.subrange(0, 2) =~= enc_i16(y.gyro_x));
    lemma_i16_injective(x.gyro_x, y.gyro_x);
    assert(ba.subrange(2, 4) =~= enc_i16(x.gyro_y));
    assert(bb.subrange(2, 4) =~= enc_i16(y.gyro_y));
    lemma_i16_injective(x.gyro_y, y.gyro_y);
    assert(ba.subrange(4, 6) =~= enc_i16(x.gyro_z));
    assert(bb.subrange(4, 6) =~= enc_i16(y.gyro_z));
    lemma_i16_injective(x.gyro_z, y.gyro_z);
    assert(ba.subrange(6, 8) =~= enc_i16(x.accel_x));
    assert(bb.subrange(6, 8) =~= enc_i16(y.accel_x));
    lemma_i16_injective(x.accel_x, y.accel_x);
    assert(ba.subrange(8, 10) =~= enc_i16(x.accel_y));
    assert(bb.subrange(8, 10) =~= enc_i16(y.accel_y));
    lemma_i16_injective(x.accel_y, y.accel_y);
    assert(ba.subrange(10, 12) =~= enc_i16(x.accel_z));
    assert(bb.subrange(10, 12) =~= enc_i16(y.accel_z));
    lemma_i16_injective(x.accel_z, y.accel_z);
    assert(ba.subrange(12, 16) =~= enc_q16(x.roll));
    assert(bb.subrange(12, 16) =~= enc_q16(y.roll));
    lemma_q16_injective(x.roll, y.roll);
    assert(ba.subrange(16, 20) =~= enc_q16(x.pitch));
    assert(bb.subrange(16, 20) =~= enc_q16(y.pitch));
    lemma_q16_injective(x.pitch, y.pitch);
    assert(ba.subrange(20, 24) =~= enc_q16(x.yaw));
    assert(bb.subrange(20, 24) =~= enc_q16(y.yaw));
    lemma_q16_injective(x.yaw, y.yaw);
}

/// The encoding determines the message: two well-formed messages with one
/// encoding are the same message. With the contracts of `encode_message`
/// and `decode_message`, decoding an encoded message gives it back.
pub proof fn lemma_encoding_injective(a: DataT, b: DataT)
    requires
        a.wf(),
        b.wf(),
        encoding(a) == encoding(b),
    ensures
        same_message(a, b),
{
    lemma_encoding_shape(a);
    lemma_encoding_shape(b);
    assert(tag_of(a) == tag_of(b));
    let ba = body_of(a);
    let bb = body_of(b);
    assert(ba =~= encoding(a).drop_first());
    assert(bb =~= encoding(b).drop_first());
    match a {
        DataT::Control(x) => if let DataT::Control(y) = b {
            lemma_control_injective(x, y);
        },
        DataT::Mode(x) => if let DataT::Mode(y) = b {
            assert(ba[0] == bb[0]);
            lemma_mode_tag_injective(x, y);
        },
        DataT::Tuning(x) => if let DataT::Tuning(y) = b {
            lemma_tuning_injective(x, y);
        },
        DataT::SensorData(x) => if let DataT::SensorData(y) = b {
            lemma_sensor_data_injective(x, y);
        },
        DataT::HealthData(x) => if let DataT::HealthData(y) = b {
            lemma_health_data_injective(x, y);
        },
        DataT::MotorsState(x) => if let DataT::MotorsState(y) = b {
            lemma_motors_state_injective(x, y);
        },
        DataT::Warning(x) => if let DataT::Warning(y) = b {
            assert(ba[0] == bb[0]);
            lemma_warning_tag_injective(x, y);
        },
        DataT::Message(x) => if let DataT::Message(y) = b {
            assert(x@ =~= ba.subrange(1, ba.len() as int));
            assert(y@ =~= bb.subrange(1, bb.len() as int));
        },
        DataT::AckNack(x) => if let DataT::AckNack(y) = b {
            assert(ba[0] == bb[0]);
        },
        DataT::KeepAlive => {},
        DataT::Empty => {},
        DataT::CalibratedAck(x) => if let DataT::CalibratedAck(y) = b {
            lemma_calibrated_ack_injective(x, y);
        },
        DataT::SensorReading(x) => if let DataT::SensorReading(y) = b {
            lemma_sensor_reading_injective(x, y);
        },
        DataT::SonsorNotCalibrated => {},
        DataT::MovementErrors(x) => if let DataT::MovementErrors(y) = b {
            lemma_movement_errors_injective(x, y);
        },
        DataT::UpdateP(x) => if let DataT::UpdateP(y) = b {
            lemma_update_p_injective(x, y);
        },
        DataT::UpdateP1P2(x) => if let DataT::UpdateP1P2(y) = b {
            lemma_update_p1_p2_injective(x, y);
        },
        DataT::StartLogging => {},
        DataT::StopLogging => {},
        DataT::StartLogReporting => {},
        DataT::StopLogReporting => {},
        DataT::SensorLog(x) => if let DataT::SensorLog(y) = b {
            lemma_sensor_log_injective(x, y);
        },
    }
}

} // verus!
