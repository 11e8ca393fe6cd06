//! The drone's state: the pipe to the ground station, the current mode, the
//! last pilot command and motor command, keep-alive supervision, the sensor
//! and calibration data, the controller gains and the flash log.
//!
//! The device itself stays outside: bytes read from the serial port go in
//! through the pipe, frames to send collect in `outbox`, flash writes
//! collect in `flash_writes`, and what was read from the sensors and the
//! flash is handed in as plain values.
use vstd::prelude::*;
use crate::codec::frame_bytes;
use crate::config::DroneConfig;
use crate::sensors::SensorsRaw;
use crate::io::{ComErr, ComT, extract};
use crate::protocol::{ControlDT, DataT, DroneMode, Q16, encoding, decoded};

verus! {

pub const PIPE_SIZE: usize = 128;

pub const COM_BUF_SIZE: usize = 64;

pub const LOG_DATA_FIELD_NO: usize = 9;

pub const ADDRESS_OF_LOG_REPORT_EOF: u32 = 0;

/// First flash address of the log records.
pub const LOG_FIRST_RECORD: u32 = 4;

/// Bytes of one log record.
pub const LOG_RECORD_LEN: u32 = 18;

/// The texts of the diagnostic messages the drone sends.
#[derive(Debug, PartialEq, Eq, Structural, Clone, Copy)]
pub enum Note {
    SendFailed,
    ReadInvalPacket,
    ReadNoMem,
    ReadCrc,
    ReadDes,
    ReadOther,
    LogStart,
    LogStop,
    LogStopFailed,
    LogFailed,
    LogReportStart,
    LogReportStartFailed,
    LogReportStop,
    LogReportFailed,
    DeadlineMissed,
}

pub open spec fn note_text(n: Note) -> Seq<u8> {
    match n {
        Note::SendFailed => seq![0x45u8, 0x20, 0x73, 0x20, 0x45, 0x4e, 0x4f, 0x4d, 0x45, 0x4d],
        Note::ReadInvalPacket => seq![
            0x45u8,
            0x20,
            0x72,
            0x20,
            0x49,
            0x6e,
            0x76,
            0x61,
            0x6c,
            0x50,
            0x61,
            0x63,
            0x6b,
            0x65,
            0x74,
        ],
        Note::ReadNoMem => seq![0x45u8, 0x20, 0x72, 0x20, 0x45, 0x4e, 0x4f, 0x4d, 0x45, 0x4d],
        Note::ReadCrc => seq![0x45u8, 0x20, 0x72, 0x20, 0x43, 0x52, 0x43],
        Note::ReadDes => seq![0x45u8, 0x20, 0x72, 0x20, 0x44, 0x65, 0x73],
        Note::ReadOther => seq![0x45u8, 0x20, 0x72, 0x20, 0x42, 0x75, 0x67],
        Note::LogStart => seq![0x6cu8, 0x6f, 0x67, 0x20, 0x73, 0x74, 0x61, 0x72, 0x74],
        Note::LogStop => seq![0x6cu8, 0x6f, 0x67, 0x20, 0x73, 0x74, 0x6f, 0x70],
        Note::LogStopFailed => seq![0x65u8, 0x3a, 0x20, 0x6c, 0x6f, 0x67, 0x20, 0x73, 0x74, 0x6f, 0x70],
        Note::LogFailed => seq![0x65u8, 0x3a, 0x20, 0x6c, 0x6f, 0x67],
        Note::LogReportStart => seq![
            0x6cu8,
            0x6f,
            0x67,
            0x20,
            0x72,
            0x65,
            0x70,
            0x6f,
            0x72,
            0x74,
            0x20,
            0x73,
            0x74,
            0x61,
            0x72,
            0x74,
        ],
        Note::LogReportStartFailed => seq![
            0x65u8,
            0x3a,
            0x20,
            0x6c,
            0x6f,
            0x67,
            0x20,
            0x72,
            0x65,
            0x70,
            0x6f,
            0x72,
            0x74,
            0x20,
            0x73,
            0x74,
            0x61,
            0x72,
            0x74,
        ],
        Note::LogReportStop => seq![
            0x6cu8,
            0x6f,
            0x67,
            0x20,
            0x72,
            0x65,
            0x70,
            0x6f,
            0x72,
            0x74,
            0x20,
            0x73,
            0x74,
            0x6f,
            0x70,
        ],
        Note::LogReportFailed => seq![
            0x65u8,
            0x3a,
            0x20,
            0x6c,
            0x6f,
            0x67,
            0x20,
            0x72,
            0x65,
            0x70,
            0x6f,
            0x72,
            0x74,
        ],
        Note::DeadlineMissed => seq![
            0x45u8,
            0x78,
            0x63,
            0x65,
            0x65,
            0x64,
            0x69,
            0x6e,
            0x67,
            0x20,
            0x64,
            0x65,
            0x61,
            0x64,
            0x6c,
            0x69,
            0x6e,
            0x65,
            0x21,
        ],
    }
}

/// The text of a diagnostic message.
pub fn note(n: Note) -> (r: Vec<u8>)
    ensures
        r@ == note_text(n),
        r@.len() <= 32,
{
    let r: Vec<u8> = match n {
        Note::SendFailed => vec![0x45u8, 0x20, 0x73, 0x20, 0x45, 0x4e, 0x4f, 0x4d, 0x45, 0x4d],
        Note::ReadInvalPacket => vec![
            0x45u8,
            0x20,
            0x72,
            0x20,
            0x49,
            0x6e,
            0x76,
            0x61,
            0x6c,
            0x50,
            0x61,
            0x63,
            0x6b,
            0x65,
            0x74,
        ],
        Note::ReadNoMem => vec![0x45u8, 0x20, 0x72, 0x20, 0x45, 0x4e, 0x4f, 0x4d, 0x45, 0x4d],
        Note::ReadCrc => vec![0x45u8, 0x20, 0x72, 0x20, 0x43, 0x52, 0x43],
        Note::ReadDes => vec![0x45u8, 0x20, 0x72, 0x20, 0x44, 0x65, 0x73],
        Note::ReadOther => vec![0x45u8, 0x20, 0x72, 0x20, 0x42, 0x75, 0x67],
        Note::LogStart => vec![0x6cu8, 0x6f, 0x67, 0x20, 0x73, 0x74, 0x61, 0x72, 0x74],
        Note::LogStop => vec![0x6cu8, 0x6f, 0x67, 0x20, 0x73, 0x74, 0x6f, 0x70],
        Note::LogStopFailed => vec![0x65u8, 0x3a, 0x20, 0x6c, 0x6f, 0x67, 0x20, 0x73, 0x74, 0x6f, 0x70],
        Note::LogFailed => vec![0x65u8, 0x3a, 0x20, 0x6c, 0x6f, 0x67],
        Note::LogReportStart => vec![
            0x6cu8,
            0x6f,
            0x67,
            0x20,
            0x72,
            0x65,
            0x70,
            0x6f,
            0x72,
            0x74,
            0x20,
            0x73,
            0x74,
            0x61,
            0x72,
            0x74,
        ],
        Note::LogReportStartFailed => vec![
            0x65u8,
            0x3a,
            0x20,
            0x6c,
            0x6f,
            0x67,
            0x20,
            0x72,
            0x65,
            0x70,
            0x6f,
            0x72,
            0x74,
            0x20,
            0x73,
            0x74,
            0x61,
            0x72,
            0x74,
        ],
        Note::LogReportStop => vec![
            0x6cu8,
            0x6f,
            0x67,
            0x20,
            0x72,
            0x65,
            0x70,
            0x6f,
            0x72,
            0x74,
            0x20,
            0x73,
            0x74,
            0x6f,
            0x70,
        ],
        Note::LogReportFailed => vec![
            0x65u8,
            0x3a,
            0x20,
            0x6c,
            0x6f,
            0x67,
            0x20,
            0x72,
            0x65,
            0x70,
            0x6f,
            0x72,
            0x74,
        ],
        Note::DeadlineMissed => vec![
            0x45u8,
            0x78,
            0x63,
            0x65,
            0x65,
            0x64,
            0x69,
            0x6e,
            0x67,
            0x20,
            0x64,
            0x65,
            0x61,
            0x64,
            0x6c,
            0x69,
            0x6e,
            0x65,
            0x21,
        ],
    };
    assert(r@ =~= note_text(n));
    r
}

/// The frame that carries a message.
pub open spec fn frame_of(m: DataT) -> Seq<u8> {
    frame_bytes(encoding(m))
}

/// The frame that carries a diagnostic message.
pub open spec fn note_frame(n: Note) -> Seq<u8> {
    frame_bytes(seq![7u8, note_text(n).len() as u8] + note_text(n))
}

/// What sending `m` appends to the outgoing bytes: its frame when it fits
/// in `COM_BUF_SIZE`, else the frame of a diagnostic message.
pub open spec fn sent(out: Seq<u8>, m: DataT) -> Seq<u8> {
    if frame_of(m).len() <= COM_BUF_SIZE {
        out + frame_of(m)
    } else if note_frame(Note::SendFailed).len() <= COM_BUF_SIZE {
        out + note_frame(Note::SendFailed)
    } else {
        out
    }
}

/// What sending a diagnostic message appends to the outgoing bytes.
pub open spec fn noted(out: Seq<u8>, n: Note) -> Seq<u8> {
    if note_frame(n).len() <= COM_BUF_SIZE {
        out + note_frame(n)
    } else if note_frame(Note::SendFailed).len() <= COM_BUF_SIZE {
        out + note_frame(Note::SendFailed)
    } else {
        out
    }
}

/// The diagnostic message for a failed read.
pub open spec fn read_note(e: ComErr) -> Note {
    match e {
        ComErr::InvalPacket => Note::ReadInvalPacket,
        ComErr::ENOMEM => Note::ReadNoMem,
        ComErr::UartError(crate::codec::Error::CRC) => Note::ReadCrc,
        ComErr::UartError(crate::codec::Error::Des) => Note::ReadDes,
        ComErr::UartError(crate::codec::Error::ENOMEM) => Note::ReadNoMem,
        _ => Note::ReadOther,
    }
}

/// Reading the pipe bytes `p` leaves `rest` and gives `m`: the message in
/// the next whole frame, or `Empty` when there is none or it is bad.
pub open spec fn read_from(p: Seq<u8>, rest: Seq<u8>, m: DataT) -> bool {
    let (res, r2) = extract(p, COM_BUF_SIZE as nat);
    &&& r2 == rest
    &&& match res {
        Err(_) => m == DataT::Empty,
        Ok(f) => decoded(f, Ok(m)) || (m == DataT::Empty && !(exists|x: DataT| decoded(f, Ok(x)))),
    }
}

/// `a` starts with `b`.
pub open spec fn extends(a: Seq<u8>, b: Seq<u8>) -> bool {
    b.len() <= a.len() && a.subrange(0, b.len() as int) == b
}

pub proof fn lemma_extends_refl(a: Seq<u8>)
    ensures
        extends(a, a),
{
    assert(a.subrange(0, a.len() as int) =~= a);
}

pub proof fn lemma_extends_trans(a: Seq<u8>, b: Seq<u8>, c: Seq<u8>)
    requires
        extends(a, b),
        extends(b, c),
    ensures
        extends(a, c),
{
    assert(a.subrange(0, c.len() as int) =~= b.subrange(0, c.len() as int));
}

pub proof fn lemma_sent_extends(out: Seq<u8>, m: DataT)
    ensures
        extends(sent(out, m), out),
{
    lemma_extends_refl(out);
    assert((out + frame_of(m)).subrange(0, out.len() as int) =~= out);
    assert((out + note_frame(Note::SendFailed)).subrange(0, out.len() as int) =~= out);
}

pub proof fn lemma_noted_extends(out: Seq<u8>, n: Note)
    ensures
        extends(noted(out, n), out),
{
    lemma_extends_refl(out);
    assert((out + note_frame(n)).subrange(0, out.len() as int) =~= out);
    assert((out + note_frame(Note::SendFailed)).subrange(0, out.len() as int) =~= out);
}

/// Two reads of the same bytes give the same message.
pub proof fn lemma_read_unique(p: Seq<u8>, r1: Seq<u8>, r2: Seq<u8>, m1: DataT, m2: DataT)
    requires
        read_from(p, r1, m1),
        read_from(p, r2, m2),
    ensures
        crate::protocol::same_message(m1, m2),
        r1 == r2,
{
    let (res, _) = extract(p, COM_BUF_SIZE as nat);
    match res {
        Err(_) => {},
        Ok(f) => {
            if decoded(f, Ok(m1)) && decoded(f, Ok(m2)) {
                crate::protocol::lemma_encoding_injective(m1, m2);
            }
        },
    }
}

/// Failures of the flash device.
#[derive(Debug, PartialEq, Eq, Structural, Clone, Copy)]
pub enum FlashError {
    SpiError,
    OutOfSpace,
}

/// A write the flash device is to perform.
#[derive(Debug, Clone)]
pub struct FlashWrite {
    pub address: u32,
    pub bytes: Vec<u8>,
}

/// Yaw, pitch and roll in radians.
#[derive(Debug, PartialEq, Eq, Structural, Clone, Copy)]
pub struct YawPitchRoll {
    pub yaw: Q16,
    pub pitch: Q16,
    pub roll: Q16,
}

/// Sensor offsets measured at rest.
#[derive(Debug, PartialEq, Eq, Structural, Clone, Copy)]
pub struct CalibrationData {
    pub roll_offset: Q16,
    pub yaw_offset: Q16,
    pub pitch_offset: Q16,
    pub gyro_x_offset: i16,
    pub gyro_y_offset: i16,
    pub gyro_z_offset: i16,
    pub accel_x_offset: i16,
    pub accel_y_offset: i16,
    pub accel_z_offset: i16,
    pub is_calibrated: bool,
}

impl CalibrationData {
    /// Zero offsets, not calibrated.
    pub fn new() -> (r: Self)
        ensures
            !r.is_calibrated,
            r.roll_offset.bits == 0 && r.yaw_offset.bits == 0 && r.pitch_offset.bits == 0,
            r.gyro_x_offset == 0 && r.gyro_y_offset == 0 && r.gyro_z_offset == 0,
            r.accel_x_offset == 0 && r.accel_y_offset == 0 && r.accel_z_offset == 0,
    {
        CalibrationData {
            roll_offset: Q16 { bits: 0 },
            yaw_offset: Q16 { bits: 0 },
            pitch_offset: Q16 { bits: 0 },
            gyro_x_offset: 0,
            gyro_y_offset: 0,
            gyro_z_offset: 0,
            accel_x_offset: 0,
            accel_y_offset: 0,
            accel_z_offset: 0,
            is_calibrated: false,
        }
    }

    pub fn is_calibrated(&self) -> (r: bool)
        ensures
            r == self.is_calibrated,
    {
        self.is_calibrated
    }

    /// Stores the mean of each reading over `samples` as its offset and
    /// marks the data calibrated.
    pub fn calibrate(&mut self, samples: &Vec<CalibrationSample>)
        requires
            0 < samples@.len() <= i16::MAX,
        ensures
            final(self).is_calibrated,
            final(self).pitch_offset.bits == field_mean(samples@, 0),
            final(self).roll_offset.bits == field_mean(samples@, 1),
            final(self).yaw_offset.bits == field_mean(samples@, 2),
            final(self).accel_x_offset == field_mean(samples@, 3),
            final(self).accel_y_offset == field_mean(samples@, 4),
            final(self).accel_z_offset == field_mean(samples@, 5),
            final(self).gyro_x_offset == field_mean(samples@, 6),
            final(self).gyro_y_offset == field_mean(samples@, 7),
            final(self).gyro_z_offset == field_mean(samples@, 8),
    {
        let n = samples.len();
        let mut acc: [i64; 9] = [0; 9];
        let mut i: usize = 0;
        while i < n
            invariant
                i <= n,
                n == samples@.len(),
                n <= i16::MAX,
                forall|k: int| 0 <= k < 9 ==> #[trigger] acc@[k] == field_sum(samples@.take(i as int), k),
            decreases n - i,
        {
            let x = samples[i];
            proof {
                assert(samples@.take(i + 1).drop_last() =~= samples@.take(i as int));
                assert forall|k: int| 0 <= k < 9 implies -0x8000_0000 * 32767 <= #[trigger] field_sum(
                    samples@.take(i as int),
                    k,
                ) <= 0x7fff_ffff * 32767 by {
                    lemma_field_bound(samples@.take(i as int), k);
                    assert(-0x8000_0000 * i >= -0x8000_0000 * 32767int) by (nonlinear_arith)
                        requires i <= 32767;
                    assert(0x7fff_ffff * i <= 0x7fff_ffff * 32767int) by (nonlinear_arith)
                        requires i <= 32767;
                }
            }
            acc[0] = acc[0] + x.ypr.pitch.bits as i64;
            acc[1] = acc[1] + x.ypr.roll.bits as i64;
            acc[2] = acc[2] + x.ypr.yaw.bits as i64;
            acc[3] = acc[3] + x.accel[0] as i64;
            acc[4] = acc[4] + x.accel[1] as i64;
            acc[5] = acc[5] + x.accel[2] as i64;
            acc[6] = acc[6] + x.gyro[0] as i64;
            acc[7] = acc[7] + x.gyro[1] as i64;
            acc[8] = acc[8] + x.gyro[2] as i64;
            i = i + 1;
        }
        assert(samples@.take(n as int) =~= samples@);
        proof {
            assert forall|k: int| 0 <= k < 9 implies -0x8000_0000_0000 <= #[trigger] field_sum(
                samples@,
                k,
            ) <= 0x8000_0000_0000 by {
                lemma_field_bound(samples@, k);
                assert(-0x8000_0000 * n >= -0x8000_0000 * 32767int) by (nonlinear_arith)
                    requires n <= 32767;
                assert(0x7fff_ffff * n <= 0x7fff_ffff * 32767int) by (nonlinear_arith)
                    requires n <= 32767;
            }
            assert forall|k: int| 0 <= k < 3 implies i32::MIN <= #[trigger] field_mean(samples@, k)
                <= i32::MAX by {
                lemma_field_bound(samples@, k);
                lemma_mean_bound(field_sum(samples@, k), n as int, i32::MIN as int, i32::MAX as int);
            }
            assert forall|k: int| 3 <= k < 9 implies i16::MIN <= #[trigger] field_mean(samples@, k)
                <= i16::MAX by {
                lemma_small_bound(samples@, k);
                lemma_mean_bound(field_sum(samples@, k), n as int, i16::MIN as int, i16::MAX as int);
            }
        }
        let m: i64 = n as i64;
        self.pitch_offset = Q16 { bits: mean(acc[0], m) as i32 };
        self.roll_offset = Q16 { bits: mean(acc[1], m) as i32 };
        self.yaw_offset = Q16 { bits: mean(acc[2], m) as i32 };
        self.accel_x_offset = mean(acc[3], m) as i16;
        self.accel_y_offset = mean(acc[4], m) as i16;
        self.accel_z_offset = mean(acc[5], m) as i16;
        self.gyro_x_offset = mean(acc[6], m) as i16;
        self.gyro_y_offset = mean(acc[7], m) as i16;
        self.gyro_z_offset = mean(acc[8], m) as i16;
        self.is_calibrated = true;
    }
}

proof fn lemma_small_bound(s: Seq<CalibrationSample>, k: int)
    requires
        3 <= k < 9,
    ensures
        -0x8000 * s.len() <= field_sum(s, k) <= 0x7fff * s.len(),
    decreases s.len(),
{
    if s.len() > 0 {
        lemma_small_bound(s.drop_last(), k);
    }
}

/// `sum / n`, rounded toward zero.
fn mean(sum: i64, n: i64) -> (r: i64)
    requires
        n > 0,
        -0x8000_0000_0000 <= sum <= 0x8000_0000_0000,
    ensures
        r == crate::fixedpoint::div_trunc(sum as int, n as int),
{
    if sum >= 0 {
        sum / n
    } else {
        -((-sum) / n)
    }
}

/// One reading taken at rest for the calibration.
#[derive(Debug, Clone, Copy)]
pub struct CalibrationSample {
    pub ypr: YawPitchRoll,
    pub accel: [i16; 3],
    pub gyro: [i16; 3],
}

/// Field `k` of a sample: pitch, roll, yaw (`Q16` bits), then the
/// acceleration and the gyro axes.
pub open spec fn sample_field(s: CalibrationSample, k: int) -> int {
    if k == 0 {
        s.ypr.pitch.bits as int
    } else if k == 1 {
        s.ypr.roll.bits as int
    } else if k == 2 {
        s.ypr.yaw.bits as int
    } else if k < 6 {
        s.accel@[k - 3] as int
    } else {
        s.gyro@[k - 6] as int
    }
}

pub open spec fn field_sum(s: Seq<CalibrationSample>, k: int) -> int
    decreases s.len(),
{
    if s.len() == 0 {
        0
    } else {
        field_sum(s.drop_last(), k) + sample_field(s.last(), k)
    }
}

/// The mean of field `k`, rounded toward zero.
pub open spec fn field_mean(s: Seq<CalibrationSample>, k: int) -> int {
    crate::fixedpoint::div_trunc(field_sum(s, k), s.len() as int)
}

proof fn lemma_field_bound(s: Seq<CalibrationSample>, k: int)
    requires
        0 <= k < 9,
    ensures
        -0x8000_0000 * s.len() <= field_sum(s, k) <= 0x7fff_ffff * s.len(),
    decreases s.len(),
{
    if s.len() > 0 {
        lemma_field_bound(s.drop_last(), k);
    }
}

proof fn lemma_mean_bound(sum: int, n: int, lo: int, hi: int)
    requires
        n > 0,
        lo <= 0 <= hi,
        lo * n <= sum <= hi * n,
    ensures
        lo <= crate::fixedpoint::div_trunc(sum, n) <= hi,
{
    if sum >= 0 {
        vstd::arithmetic::div_mod::lemma_div_is_ordered(sum, hi * n, n);
        vstd::arithmetic::div_mod::lemma_div_multiples_vanish(hi, n);
        assert(hi * n == n * hi) by (nonlinear_arith);
        vstd::arithmetic::div_mod::lemma_div_is_ordered(0, sum, n);
    } else {
        assert(-sum <= (-lo) * n) by (nonlinear_arith)
            requires
                lo * n <= sum,
        ;
        vstd::arithmetic::div_mod::lemma_div_is_ordered(-sum, (-lo) * n, n);
        vstd::arithmetic::div_mod::lemma_div_multiples_vanish(-lo, n);
        assert(-lo * n == n * (-lo)) by (nonlinear_arith);
        vstd::arithmetic::div_mod::lemma_div_is_ordered(0, -sum, n);
    }
}

/// The current and the previous attitude read from the motion processor.
#[derive(Debug, PartialEq, Eq, Structural, Clone, Copy)]
pub struct SensorsDMP {
    pub sensor_new: YawPitchRoll,
    pub sensor_old: YawPitchRoll,
}

impl SensorsDMP {
    pub fn new() -> (r: Self)
        ensures
            r.sensor_new == (YawPitchRoll {
                yaw: Q16 { bits: 0 },
                pitch: Q16 { bits: 0 },
                roll: Q16 { bits: 0 },
            }),
            r.sensor_old == r.sensor_new,
    {
        let z = YawPitchRoll { yaw: Q16 { bits: 0 }, pitch: Q16 { bits: 0 }, roll: Q16 { bits: 0 } };
        SensorsDMP { sensor_new: z, sensor_old: z }
    }

    /// Takes a new reading; the current one becomes the previous one.
    pub fn update_sensor_readings_dmp(&mut self, reading: YawPitchRoll)
        ensures
            final(self).sensor_old == old(self).sensor_new,
            final(self).sensor_new == reading,
    {
        self.sensor_old = self.sensor_new;
        self.sensor_new = reading;
    }

    /// The current roll with its calibration offset removed.
    pub fn get_dmp_roll_value(&self, c: &CalibrationData) -> (r: Q16)
        ensures
            r.bits == crate::controller::q_sub(self.sensor_new.roll.bits as int, c.roll_offset.bits as int),
    {
        Q16 { bits: crate::controller::q16_sub(self.sensor_new.roll.bits, c.roll_offset.bits) }
    }

    /// The current pitch with its calibration offset removed.
    pub fn get_dmp_pitch_value(&self, c: &CalibrationData) -> (r: Q16)
        ensures
            r.bits == crate::controller::q_sub(self.sensor_new.pitch.bits as int, c.pitch_offset.bits as int),
    {
        Q16 { bits: crate::controller::q16_sub(self.sensor_new.pitch.bits, c.pitch_offset.bits) }
    }

    /// The current yaw with its calibration offset removed.
    pub fn get_dmp_yaw_value(&self, c: &CalibrationData) -> (r: Q16)
        ensures
            r.bits == crate::controller::q_sub(self.sensor_new.yaw.bits as int, c.yaw_offset.bits as int),
    {
        Q16 { bits: crate::controller::q16_sub(self.sensor_new.yaw.bits, c.yaw_offset.bits) }
    }

    /// The previous roll with its calibration offset removed.
    pub fn get_dmp_roll_value_old(&self, c: &CalibrationData) -> (r: Q16)
        ensures
            r.bits == crate::controller::q_sub(self.sensor_old.roll.bits as int, c.roll_offset.bits as int),
    {
        Q16 { bits: crate::controller::q16_sub(self.sensor_old.roll.bits, c.roll_offset.bits) }
    }

    /// The previous pitch with its calibration offset removed.
    pub fn get_dmp_pitch_value_old(&self, c: &CalibrationData) -> (r: Q16)
        ensures
            r.bits == crate::controller::q_sub(self.sensor_old.pitch.bits as int, c.pitch_offset.bits as int),
    {
        Q16 { bits: crate::controller::q16_sub(self.sensor_old.pitch.bits, c.pitch_offset.bits) }
    }

    /// The previous yaw with its calibration offset removed.
    pub fn get_dmp_yaw_value_old(&self, c: &CalibrationData) -> (r: Q16)
        ensures
            r.bits == crate::controller::q_sub(self.sensor_old.yaw.bits as int, c.yaw_offset.bits as int),
    {
        Q16 { bits: crate::controller::q16_sub(self.sensor_old.yaw.bits, c.yaw_offset.bits) }
    }

    pub fn get_gyro_sensor(&self) -> (r: YawPitchRoll)
        ensures
            r == self.sensor_new,
    {
        self.sensor_new
    }
}

/// The state of the drone.
pub struct DroneState {
    /// The receiving side of the serial link.
    pub pipe: ComT,
    pub mode: DroneMode,
    /// The last pilot command received; 2048 on every channel (above every
    /// valid value) until one arrives.
    pub received_command: ControlDT,
    /// The last motor command, each in `[0, 800]`.
    pub motor_command: [u16; 4],
    pub config: DroneConfig,
    pub ticks_since_last_ka: u32,
    pub calibrated_data: CalibrationData,
    pub sensors_dmp: SensorsDMP,
    pub sensors_raw: SensorsRaw,
    pub p: Q16,
    pub p1: Q16,
    pub p2: Q16,
    /// The flash address of the next log record.
    pub flash_iterator: u32,
    /// The flash address where the log being reported ends.
    pub log_report_eof: u32,
    pub log_on: bool,
    pub log_report_on: bool,
    pub debug_info: DataT,
    /// Frames to be written to the serial port.
    pub outbox: Vec<u8>,
    /// Writes to be performed on the flash, oldest first.
    pub flash_writes: Vec<FlashWrite>,
}

/// Appends `src` to `out`.
pub(crate) fn push_all(out: &mut Vec<u8>, src: &Vec<u8>)
    ensures
        final(out)@ == old(out)@ + src@,
{
    let mut i: usize = 0;
    while i < src.len()
        invariant
            i <= src@.len(),
            out@ == old(out)@ + src@.take(i as int),
        decreases src@.len() - i,
    {
        out.push(src[i]);
        i = i + 1;
        assert(out@ =~= old(out)@ + src@.take(i as int));
    }
    assert(src@.take(src@.len() as int) =~= src@);
}

impl DroneState {
    /// The invariant: motor commands within `[0, 800]` and all off in
    /// `Safe`, positive periods.
    pub open spec fn wf(&self) -> bool {
        &&& forall|i: int| 0 <= i < 4 ==> #[trigger] self.motor_command@[i] <= 800
        &&& self.mode == DroneMode::Safe ==> self.motor_command@ == seq![0u16, 0u16, 0u16, 0u16]
        &&& self.config.wf()
        &&& self.debug_info.wf()
        &&& self.pipe.capacity() > 0
    }

    /// A drone in `Safe` mode, motors off, nothing received yet.
    pub fn new() -> (r: Self)
        ensures
            r.wf(),
            r.mode == DroneMode::Safe,
            r.motor_command@ == seq![0u16, 0u16, 0u16, 0u16],
            r.received_command == (ControlDT { lift: 2048, roll: 2048, pitch: 2048, yaw: 2048 }),
            r.ticks_since_last_ka == 0,
            !r.calibrated_data.is_calibrated,
            r.pipe@ == Seq::<u8>::empty(),
            r.pipe.capacity() == PIPE_SIZE,
            r.p.bits == 5 * 65536 && r.p1.bits == 5 * 65536 && r.p2.bits == 5 * 65536,
            r.flash_iterator == LOG_FIRST_RECORD,
            r.log_report_eof == LOG_FIRST_RECORD,
            !r.log_on,
            !r.log_report_on,
            r.outbox@ == Seq::<u8>::empty(),
            r.flash_writes@ == Seq::<FlashWrite>::empty(),
    {
        let r = DroneState {
            pipe: ComT::new(PIPE_SIZE),
            mode: DroneMode::Safe,
            received_command: ControlDT { lift: 2048, roll: 2048, pitch: 2048, yaw: 2048 },
            motor_command: [0, 0, 0, 0],
            config: DroneConfig::default(),
            ticks_since_last_ka: 0,
            calibrated_data: CalibrationData::new(),
            sensors_dmp: SensorsDMP::new(),
            sensors_raw: SensorsRaw::new(),
            p: Q16 { bits: 5 * 65536 },
            p1: Q16 { bits: 5 * 65536 },
            p2: Q16 { bits: 5 * 65536 },
            flash_iterator: LOG_FIRST_RECORD,
            log_report_eof: LOG_FIRST_RECORD,
            log_on: false,
            log_report_on: false,
            debug_info: DataT::KeepAlive,
            outbox: Vec::new(),
            flash_writes: Vec::new(),
        };
        assert(r.motor_command@ =~= seq![0u16, 0u16, 0u16, 0u16]);
        r
    }

    /// Sends `data`: appends its frame to `outbox`. When the frame does not
    /// fit in `COM_BUF_SIZE`, a diagnostic message goes out instead and the
    /// result is `false`.
    pub fn send_data(&mut self, data: DataT) -> (ok: bool)
        requires
            data.wf(),
        ensures
            ok == (frame_of(data).len() <= COM_BUF_SIZE),
            final(self).outbox@ == sent(old(self).outbox@, data),
            *final(self) == (DroneState { outbox: final(self).outbox, ..*old(self) }),
    {
        proof {
            crate::codec::lemma_stuff_len(crate::codec::packet_bytes(encoding(data)));
        }
        match self.pipe.send_data(&data, COM_BUF_SIZE) {
            Ok(f) => {
                push_all(&mut self.outbox, &f);
                true
            },
            Err(_) => {
                let m = DataT::Message(note(Note::SendFailed));
                proof {
                    assert(encoding(m) =~= seq![7u8, note_text(Note::SendFailed).len() as u8]
                        + note_text(Note::SendFailed));
                    crate::codec::lemma_stuff_len(crate::codec::packet_bytes(encoding(m)));
                }
                match self.pipe.send_data(&m, COM_BUF_SIZE) {
                    Ok(f) => {
                        push_all(&mut self.outbox, &f);
                    },
                    Err(_) => {},
                }
                false
            },
        }
    }

    /// Sends a diagnostic message.
    pub fn send_note(&mut self, n: Note)
        ensures
            final(self).outbox@ == noted(old(self).outbox@, n),
            *final(self) == (DroneState { outbox: final(self).outbox, ..*old(self) }),
    {
        let t = note(n);
        let m = DataT::Message(t);
        assert(encoding(m) =~= seq![7u8, note_text(n).len() as u8] + note_text(n));
        self.send_data(m);
    }

    /// The next message from the pipe, or `Empty` when no whole frame has
    /// arrived or the frame is bad; a bad frame is reported to the ground
    /// station.
    pub fn read_data(&mut self) -> (r: DataT)
        ensures
            r.wf(),
            final(self).pipe.capacity() == old(self).pipe.capacity(),
            final(self).pipe@.len() <= old(self).pipe@.len(),
            !(r is Empty) ==> final(self).pipe@.len() < old(self).pipe@.len(),
            read_from(old(self).pipe@, final(self).pipe@, r),
            extends(final(self).outbox@, old(self).outbox@),
            *final(self) == (DroneState {
                pipe: final(self).pipe,
                outbox: final(self).outbox,
                ..*old(self)
            }),
            ({
                let (res, rest) = extract(old(self).pipe@, COM_BUF_SIZE as nat);
                &&& final(self).pipe@ == rest
                &&& match res {
                    Err(e) => r == DataT::Empty && (e == ComErr::Empty ==> final(self).outbox
                        == old(self).outbox) && (e != ComErr::Empty ==> final(self).outbox@
                        == noted(old(self).outbox@, read_note(e))),
                    Ok(f) => (decoded(f, Ok(r)) && final(self).outbox == old(self).outbox) || (r
                        == DataT::Empty && !(exists|m: DataT| decoded(f, Ok(m)))
                        && (exists|ue: crate::codec::Error| decoded(f, Err(ue))
                        && final(self).outbox@ == noted(
                        old(self).outbox@,
                        read_note(ComErr::UartError(ue)),
                    ))),
                }
            }),
    {
        proof {
            crate::io::lemma_extract_shrinks(self.pipe@, COM_BUF_SIZE as nat);
            lemma_extends_refl(self.outbox@);
            lemma_noted_extends(self.outbox@, Note::ReadInvalPacket);
            lemma_noted_extends(self.outbox@, Note::ReadNoMem);
            lemma_noted_extends(self.outbox@, Note::ReadCrc);
            lemma_noted_extends(self.outbox@, Note::ReadDes);
            lemma_noted_extends(self.outbox@, Note::ReadOther);
        }
        match self.pipe.read_data(COM_BUF_SIZE) {
            Ok(m) => m,
            Err(e) => {
                match e {
                    ComErr::Empty => {},
                    _ => {
                        let n = match e {
                            ComErr::InvalPacket => Note::ReadInvalPacket,
                            ComErr::ENOMEM => Note::ReadNoMem,
                            ComErr::UartError(crate::codec::Error::CRC) => Note::ReadCrc,
                            ComErr::UartError(crate::codec::Error::Des) => Note::ReadDes,
                            ComErr::UartError(crate::codec::Error::ENOMEM) => Note::ReadNoMem,
                            _ => Note::ReadOther,
                        };
                        self.send_note(n);
                    },
                }
                DataT::Empty
            },
        }
    }

    /// Sets the motor command, which the board applies after the tick.
    pub fn set_motors(&mut self, motor_command: [u16; 4])
        requires
            forall|i: int| 0 <= i < 4 ==> #[trigger] motor_command@[i] <= 800,
        ensures
            *final(self) == (DroneState { motor_command, ..*old(self) }),
    {
        self.motor_command = motor_command;
    }

    /// The motor command last set.
    pub fn get_motors(&self) -> (r: [u16; 4])
        ensures
            r == self.motor_command,
    {
        self.motor_command
    }

    /// Stores the last pilot command received.
    pub fn set_cc(&mut self, data: ControlDT)
        ensures
            *final(self) == (DroneState { received_command: data, ..*old(self) }),
    {
        self.received_command = data;
    }

    /// The last pilot command received.
    pub fn get_cc(&self) -> (r: ControlDT)
        ensures
            r == self.received_command,
    {
        self.received_command
    }

    /// The last pilot command as `[lift, roll, pitch, yaw]`.
    pub fn get_cc_as_vec(&self) -> (r: [u16; 4])
        ensures
            r@ == seq![
                self.received_command.lift,
                self.received_command.roll,
                self.received_command.pitch,
                self.received_command.yaw,
            ],
    {
        let r = [
            self.received_command.lift,
            self.received_command.roll,
            self.received_command.pitch,
            self.received_command.yaw,
        ];
        assert(r@ =~= seq![
            self.received_command.lift,
            self.received_command.roll,
            self.received_command.pitch,
            self.received_command.yaw,
        ]);
        r
    }

    /// Counts one more tick without a keep-alive (saturating).
    pub(crate) fn tick_time_since_keep_alive(&mut self)
        ensures
            *final(self) == (DroneState {
                ticks_since_last_ka: if old(self).ticks_since_last_ka < u32::MAX {
                    (old(self).ticks_since_last_ka + 1) as u32
                } else {
                    u32::MAX
                },
                ..*old(self)
            }),
    {
        if self.ticks_since_last_ka < u32::MAX {
            self.ticks_since_last_ka = self.ticks_since_last_ka + 1;
        }
    }

    /// A keep-alive arrived.
    pub fn got_keep_alive(&mut self)
        ensures
            *final(self) == (DroneState { ticks_since_last_ka: 0, ..*old(self) }),
    {
        self.ticks_since_last_ka = 0;
    }

    /// Whether the link still counts as alive.
    pub fn check_alive(&self) -> (r: bool)
        ensures
            r == (self.ticks_since_last_ka <= self.config.max_ticks_no_ka),
    {
        !(self.ticks_since_last_ka > self.config.max_ticks_no_ka)
    }

    /// Sends a keep-alive to the ground station.
    pub fn send_alive(&mut self)
        ensures
            final(self).outbox@ == sent(old(self).outbox@, DataT::KeepAlive),
            *final(self) == (DroneState { outbox: final(self).outbox, ..*old(self) }),
    {
        self.send_data(DataT::KeepAlive);
    }

    /// Starts logging from the first record address, unless logging or log
    /// reporting is already on.
    pub fn start_logging(&mut self)
        ensures
            started_logging(*old(self), *final(self)),
    {
        if self.log_on || self.log_report_on {
            return;
        }
        self.log_on = true;
        self.flash_iterator = LOG_FIRST_RECORD;
        self.send_note(Note::LogStart);
    }

    /// Stops logging: the address after the last record goes to flash
    /// address 0, big-endian.
    pub fn stop_logging(&mut self)
        ensures
            stopped_logging(*old(self), *final(self)),
    {
        if !self.log_on {
            return;
        }
        self.send_note(Note::LogStop);
        self.log_on = false;
        let it = self.flash_iterator;
        let bytes: Vec<u8> = vec![
            (it / 16777216) as u8,
            (it / 65536 % 256) as u8,
            (it / 256 % 256) as u8,
            (it % 256) as u8,
        ];
        assert(bytes@ =~= be_u32(it));
        self.flash_iterator = LOG_FIRST_RECORD;
        let ghost before = self.flash_writes@;
        self.flash_writes.push(FlashWrite { address: ADDRESS_OF_LOG_REPORT_EOF, bytes });
        assert(self.flash_writes@.drop_last() =~= before);
    }

    /// The flash device reports the outcome of a write of `flash_writes`:
    /// a log record that went in advances the log; a full flash stops
    /// logging; a failed end-of-log write is reported.
    pub fn flash_write_done(&mut self, address: u32, result: Result<(), FlashError>)
        ensures
            address == ADDRESS_OF_LOG_REPORT_EOF ==> match result {
                Ok(_) => *final(self) == *old(self),
                Err(_) => final(self).outbox@ == noted(old(self).outbox@, Note::LogStopFailed)
                    && *final(self) == (DroneState { outbox: final(self).outbox, ..*old(self) }),
            },
            address != ADDRESS_OF_LOG_REPORT_EOF && old(self).log_on ==> match result {
                Ok(_) => *final(self) == (DroneState {
                    flash_iterator: sat_add(old(self).flash_iterator, LOG_RECORD_LEN),
                    ..*old(self)
                }),
                Err(FlashError::SpiError) => *final(self) == *old(self),
                Err(FlashError::OutOfSpace) => {
                    &&& final(self).outbox@ == noted(
                        noted(old(self).outbox@, Note::LogFailed),
                        Note::LogStop,
                    )
                    &&& final(self).flash_writes@.len() == old(self).flash_writes@.len() + 1
                    &&& final(self).flash_writes@.drop_last() == old(self).flash_writes@
                    &&& final(self).flash_writes@.last().address == ADDRESS_OF_LOG_REPORT_EOF
                    &&& final(self).flash_writes@.last().bytes@ == be_u32(old(self).flash_iterator)
                    &&& *final(self) == (DroneState {
                        log_on: false,
                        flash_iterator: LOG_FIRST_RECORD,
                        outbox: final(self).outbox,
                        flash_writes: final(self).flash_writes,
                        ..*old(self)
                    })
                },
            },
            address != ADDRESS_OF_LOG_REPORT_EOF && !old(self).log_on ==> *final(self) == *old(
                self,
            ),
    {
        if address == ADDRESS_OF_LOG_REPORT_EOF {
            match result {
                Ok(_) => {},
                Err(_) => {
                    self.send_note(Note::LogStopFailed);
                },
            }
            return;
        }
        if !self.log_on {
            return;
        }
        match result {
            Ok(_) => {
                self.flash_iterator = if self.flash_iterator <= u32::MAX - LOG_RECORD_LEN {
                    self.flash_iterator + LOG_RECORD_LEN
                } else {
                    u32::MAX
                };
            },
            Err(FlashError::SpiError) => {},
            Err(FlashError::OutOfSpace) => {
                self.send_note(Note::LogFailed);
                self.stop_logging();
            },
        }
    }

    /// The log record for this tick, if logging is on: gyro, acceleration
    /// (offsets removed) and the attitude in units of 1e-4 rad, each a
    /// big-endian `i16`.
    pub fn log_if_enabled(&mut self, accel: [i16; 3], gyro: [i16; 3])
        ensures
            !old(self).log_on ==> *final(self) == *old(self),
            old(self).log_on ==> {
                &&& final(self).flash_writes@.len() == old(self).flash_writes@.len() + 1
                &&& final(self).flash_writes@.drop_last() == old(self).flash_writes@
                &&& final(self).flash_writes@.last().address == old(self).flash_iterator
                &&& final(self).flash_writes@.last().bytes@ == record_bytes(
                    log_fields(old(self).calibrated_data, old(self).sensors_dmp.sensor_new, accel@, gyro@),
                )
                &&& *final(self) == (DroneState {
                    flash_writes: final(self).flash_writes,
                    ..*old(self)
                })
            },
    {
        if !self.log_on {
            return;
        }
        let c = self.calibrated_data;
        let ypr = self.sensors_dmp.sensor_new;
        let d = self.sensors_dmp;
        let (a, g) = SensorsRaw::read(&c, accel, gyro);
        let fields: [i16; 9] = [
            g[0],
            g[1],
            g[2],
            a[0],
            a[1],
            a[2],
            scaled_angle(d.get_dmp_pitch_value(&c).bits),
            scaled_angle(d.get_dmp_roll_value(&c).bits),
            scaled_angle(d.get_dmp_yaw_value(&c).bits),
        ];
        let ghost f = log_fields(c, ypr, accel@, gyro@);
        assert(fields@ =~= f);
        let mut bytes: Vec<u8> = Vec::new();
        let mut i: usize = 0;
        while i < 9
            invariant
                i <= 9,
                fields@ == f,
                f.len() == 9,
                bytes@ =~= record_bytes(f).take(2 * i),
            decreases 9 - i,
        {
            let u = fields[i] as u16;
            bytes.push((u >> 8) as u8);
            bytes.push((u & 0xff) as u8);
            i = i + 1;
            assert(bytes@ =~= record_bytes(f).take(2 * i));
        }
        assert(record_bytes(f).take(18) =~= record_bytes(f));
        self.flash_writes.push(FlashWrite { address: self.flash_iterator, bytes });
    }

    /// Starts reporting the log: `eof` is what flash address 0 held. An
    /// unwritten pointer (`0xFFFFFFFF`, or below the first record) gives an
    /// empty log.
    pub fn log_report_start(&mut self, eof: Result<[u8; 4], FlashError>)
        ensures
            started_log_report(*old(self), *final(self), eof),
    {
        if self.log_on || self.log_report_on {
            return;
        }
        match eof {
            Ok(b) => {
                self.log_report_on = true;
                let w: u32 = (b[0] as u32) * 16777216 + (b[1] as u32) * 65536 + (b[2] as u32) * 256
                    + (b[3] as u32);
                self.log_report_eof = if w >= LOG_FIRST_RECORD && w != u32::MAX {
                    w
                } else {
                    LOG_FIRST_RECORD
                };
                self.flash_iterator = LOG_FIRST_RECORD;
            },
            Err(_) => {
                self.send_note(Note::LogReportStartFailed);
            },
        }
        self.send_note(Note::LogReportStart);
    }

    /// Stops reporting the log and tells the ground station.
    pub fn log_report_stop(&mut self)
        ensures
            stopped_log_report(*old(self), *final(self)),
    {
        if !self.log_report_on {
            return;
        }
        self.send_data(DataT::StopLogReporting);
        self.log_report_on = false;
        self.flash_iterator = LOG_FIRST_RECORD;
        self.send_note(Note::LogReportStop);
    }

    /// Every `log_report_send_period` ticks while reporting, sends the
    /// record that `record` holds (the 18 bytes at `flash_iterator`); stops
    /// at the end of the log or when the read failed.
    pub fn log_report_if_enabled(&mut self, iter_count: u32, record: Result<[u8; 18], FlashError>)
        requires
            old(self).wf(),
        ensures
            final(self).wf(),
            reported(*old(self), *final(self), iter_count, record),
            final(self).mode == old(self).mode,
            final(self).motor_command == old(self).motor_command,
            final(self).pipe == old(self).pipe,
    {
        if !self.log_report_on {
            return;
        }
        if self.flash_iterator >= self.log_report_eof {
            self.log_report_stop();
            return;
        }
        if iter_count % self.config.log_report_send_period != 0 {
            return;
        }
        self.flash_iterator = if self.flash_iterator <= u32::MAX - LOG_RECORD_LEN {
            self.flash_iterator + LOG_RECORD_LEN
        } else {
            u32::MAX
        };
        match record {
            Ok(b) => {
                let l = decode_log_record(&b);
                self.send_data(DataT::SensorLog(l));
            },
            Err(_) => {
                self.send_note(Note::LogReportFailed);
                self.log_report_stop();
            },
        }
    }
}

/// The end of the log for the pointer stored at flash address 0.
pub open spec fn log_end(b: Seq<u8>) -> u32 {
    let w = b[0] * 16777216 + b[1] * 65536 + b[2] * 256 + b[3];
    if w >= LOG_FIRST_RECORD && w != u32::MAX {
        w as u32
    } else {
        LOG_FIRST_RECORD
    }
}

/// A big-endian `i16`.
pub open spec fn be_i16(hi: u8, lo: u8) -> i16 {
    let u = hi * 256 + lo;
    if u >= 32768 {
        (u - 65536) as i16
    } else {
        u as i16
    }
}

/// An attitude stored in units of 1e-4 rad, back in `Q16` radians.
pub open spec fn angle_of(x: i16) -> Q16 {
    Q16 { bits: crate::fixedpoint::div_trunc(x * 65536 * 65536, 10000 * 65536int) as i32 }
}

/// The sensor log entry a stored record holds.
pub open spec fn log_record(b: Seq<u8>) -> crate::protocol::SensorLogDT {
    crate::protocol::SensorLogDT {
        gyro_x: be_i16(b[0], b[1]),
        gyro_y: be_i16(b[2], b[3]),
        gyro_z: be_i16(b[4], b[5]),
        accel_x: be_i16(b[6], b[7]),
        accel_y: be_i16(b[8], b[9]),
        accel_z: be_i16(b[10], b[11]),
        pitch: angle_of(be_i16(b[12], b[13])),
        roll: angle_of(be_i16(b[14], b[15])),
        yaw: angle_of(be_i16(b[16], b[17])),
    }
}

fn get_be_i16(hi: u8, lo: u8) -> (r: i16)
    ensures
        r == be_i16(hi, lo),
{
    let u: i32 = hi as i32 * 256 + lo as i32;
    if u >= 32768 {
        (u - 65536) as i16
    } else {
        u as i16
    }
}

fn angle_from(x: i16) -> (r: Q16)
    ensures
        r == angle_of(x),
{
    let a: i32 = x as i32 * 65536;
    proof {
        let n = x * 65536 * 65536;
        let d = 10000 * 65536int;
        assert(-32768 * 65536 * 65536 <= n <= 32767 * 65536 * 65536) by (nonlinear_arith)
            requires
                n == x * 65536 * 65536,
                -32768 <= x <= 32767,
        ;
        if n >= 0 {
            vstd::arithmetic::div_mod::lemma_div_is_ordered(n, 32767 * 65536 * 65536int, d);
        } else {
            vstd::arithmetic::div_mod::lemma_div_is_ordered(-n, 32768 * 65536 * 65536int, d);
        }
    }
    Q16 { bits: crate::fixedpoint::div_i16f16(a, 10000 * 65536) }
}

fn decode_log_record(b: &[u8; 18]) -> (r: crate::protocol::SensorLogDT)
    ensures
        r == log_record(b@),
{
    crate::protocol::SensorLogDT {
        gyro_x: get_be_i16(b[0], b[1]),
        gyro_y: get_be_i16(b[2], b[3]),
        gyro_z: get_be_i16(b[4], b[5]),
        accel_x: get_be_i16(b[6], b[7]),
        accel_y: get_be_i16(b[8], b[9]),
        accel_z: get_be_i16(b[10], b[11]),
        pitch: angle_from(get_be_i16(b[12], b[13])),
        roll: angle_from(get_be_i16(b[14], b[15])),
        yaw: angle_from(get_be_i16(b[16], b[17])),
    }
}


/// The nine fields of a log record: gyro and acceleration with the
/// offsets removed, then pitch, roll and yaw (offsets removed) in units of
/// 1e-4 rad.
pub open spec fn log_fields(c: CalibrationData, ypr: YawPitchRoll, accel: Seq<i16>, gyro: Seq<i16>) -> Seq<i16> {
    let g = crate::sensors::corrected_gyro(c, gyro);
    let a = crate::sensors::corrected_accel(c, accel);
    seq![
        g[0],
        g[1],
        g[2],
        a[0],
        a[1],
        a[2],
        scaled(crate::controller::q_sub(ypr.pitch.bits as int, c.pitch_offset.bits as int)),
        scaled(crate::controller::q_sub(ypr.roll.bits as int, c.roll_offset.bits as int)),
        scaled(crate::controller::q_sub(ypr.yaw.bits as int, c.yaw_offset.bits as int)),
    ]
}

/// An angle in `Q16` radians in units of 1e-4 rad, wrapped to 16 bits.
pub open spec fn scaled(bits: int) -> i16 {
    ((bits * 10000) / 65536) as i16
}

/// The fields as big-endian bytes.
pub open spec fn record_bytes(f: Seq<i16>) -> Seq<u8> {
    Seq::new(
        2 * f.len(),
        |k: int|
            if k % 2 == 0 {
                ((f[k / 2] as u16) >> 8) as u8
            } else {
                ((f[k / 2] as u16) & 0xff) as u8
            },
    )
}

/// What `log_report_if_enabled` does at tick `iter` with the record
/// `record` read at `flash_iterator`.
pub open spec fn reported(a: DroneState, b: DroneState, iter_count: u32, record: Result<[u8; 18], FlashError>) -> bool {
    if !a.log_report_on {
        b == a
    } else if a.flash_iterator >= a.log_report_eof {
        stopped_log_report(a, b)
    } else if iter_count % a.config.log_report_send_period != 0 {
        b == a
    } else {
        match record {
            Ok(w) => b.outbox@ == sent(a.outbox@, DataT::SensorLog(log_record(w@))) && b == (
            DroneState {
                flash_iterator: sat_add(a.flash_iterator, LOG_RECORD_LEN),
                outbox: b.outbox,
                ..a
            }),
            Err(_) => b.outbox@ == noted(
                sent(noted(a.outbox@, Note::LogReportFailed), DataT::StopLogReporting),
                Note::LogReportStop,
            ) && b == (DroneState {
                log_report_on: false,
                flash_iterator: LOG_FIRST_RECORD,
                outbox: b.outbox,
                ..a
            }),
        }
    }
}

/// What `start_logging` does: unless logging or reporting is on, logging
/// starts at the first record address and a note goes out.
pub open spec fn started_logging(a: DroneState, b: DroneState) -> bool {
    if a.log_on || a.log_report_on {
        b == a
    } else {
        &&& b.outbox@ == noted(a.outbox@, Note::LogStart)
        &&& b == (DroneState { log_on: true, flash_iterator: LOG_FIRST_RECORD, outbox: b.outbox, ..a })
    }
}

/// What `stop_logging` does: when logging is on, it stops, a note goes out
/// and the end of the log is queued for flash address 0, big-endian.
pub open spec fn stopped_logging(a: DroneState, b: DroneState) -> bool {
    if !a.log_on {
        b == a
    } else {
        &&& b.outbox@ == noted(a.outbox@, Note::LogStop)
        &&& b.flash_writes@.len() == a.flash_writes@.len() + 1
        &&& b.flash_writes@.drop_last() == a.flash_writes@
        &&& b.flash_writes@.last().address == ADDRESS_OF_LOG_REPORT_EOF
        &&& b.flash_writes@.last().bytes@ == be_u32(a.flash_iterator)
        &&& b == (DroneState {
            log_on: false,
            flash_iterator: LOG_FIRST_RECORD,
            outbox: b.outbox,
            flash_writes: b.flash_writes,
            ..a
        })
    }
}

/// What `log_report_start` does with the word `eof` read from flash
/// address 0: unless logging or reporting is on, reporting starts from the
/// first record up to `log_end(eof)`; a failed read is reported instead.
pub open spec fn started_log_report(a: DroneState, b: DroneState, eof: Result<[u8; 4], FlashError>) -> bool {
    if a.log_on || a.log_report_on {
        b == a
    } else {
        match eof {
            Ok(w) => b.outbox@ == noted(a.outbox@, Note::LogReportStart) && b == (DroneState {
                log_report_on: true,
                log_report_eof: log_end(w@),
                flash_iterator: LOG_FIRST_RECORD,
                outbox: b.outbox,
                ..a
            }),
            Err(_) => b.outbox@ == noted(noted(a.outbox@, Note::LogReportStartFailed), Note::LogReportStart)
                && b == (DroneState { outbox: b.outbox, ..a }),
        }
    }
}

/// What `log_report_stop` does: when reporting, it stops and the ground
/// station is told.
pub open spec fn stopped_log_report(a: DroneState, b: DroneState) -> bool {
    if !a.log_report_on {
        b == a
    } else {
        &&& b.outbox@ == noted(sent(a.outbox@, DataT::StopLogReporting), Note::LogReportStop)
        &&& b == (DroneState {
            log_report_on: false,
            flash_iterator: LOG_FIRST_RECORD,
            outbox: b.outbox,
            ..a
        })
    }
}

/// `a + b`, saturating at `u32::MAX`.
pub open spec fn sat_add(a: u32, b: u32) -> u32 {
    if a + b <= u32::MAX {
        (a + b) as u32
    } else {
        u32::MAX
    }
}

/// A `u32` as four big-endian bytes.
pub open spec fn be_u32(x: u32) -> Seq<u8> {
    seq![(x / 16777216) as u8, (x / 65536 % 256) as u8, (x / 256 % 256) as u8, (x % 256) as u8]
}

fn scaled_angle(bits: i32) -> (r: i16)
    ensures
        r == scaled(bits as int),
{
    let wide: i64 = bits as i64 * 10000;
    let q: i64 = if wide >= 0 {
        wide / 65536
    } else {
        -((-wide + 65535) / 65536)
    };
    proof {
        if wide < 0 {
            assert(-((-wide + 65535) / 65536) == wide / 65536) by (nonlinear_arith)
                requires
                    wide < 0,
            {
                vstd::arithmetic::div_mod::lemma_fundamental_div_mod(wide as int, 65536);
                vstd::arithmetic::div_mod::lemma_fundamental_div_mod((-wide + 65535) as int, 65536);
            }
        }
    }
    q as i16
}

} // verus!
