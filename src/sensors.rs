//! The complementary filter on the raw gyro and accelerometer readings.
use vstd::prelude::*;
use crate::protocol::Q16;
use crate::controller::{clamp_i32, q_add, q_sub, q_mul, q16_add, q16_sub, q16_mul};
use crate::drone::CalibrationData;
use crate::fixedpoint::{
    atan2_i16f16, atan2_in_range, cordic_atan2, div_trunc, isqrt, sqrt_i16f16, sqrt_i32f32,
};
use crate::drone::YawPitchRoll;

verus! {

/// Gyro units per radian and tick.
pub const P2PHI: i32 = 94000;

/// Accelerometer units per g.
pub const A2G: i32 = 16384;

/// Weight of the accelerometer correction on the angle.
pub const C1: i32 = 50;

/// Weight of the accelerometer correction on the gyro bias.
pub const C2: i32 = 15000;

pub open spec fn clamp16(x: int) -> i16 {
    if x < i16::MIN {
        i16::MIN
    } else if x > i16::MAX {
        i16::MAX
    } else {
        x as i16
    }
}

/// One filter step for an angle with gyro reading `g` and accelerometer
/// reference angle of `(x, y)` (accelerations in `Q16` g, that is
/// readings times `65536 / A2G`): integrate the bias-corrected rate, then pull the angle toward
/// the reference by `1/C1` and the bias by `P2PHI/C2` of the error. When
/// the reference cannot be computed, only the integration is done.
pub open spec fn filter_step(angle: int, bias: int, g: int, y: int, x: int) -> (int, int) {
    let a1 = q_add(angle, div_trunc(q_sub(g * 65536, bias), P2PHI as int));
    if atan2_in_range(y as i32, x as i32) {
        let e = q_sub(a1, cordic_atan2(y as i32, x as i32) as int);
        (q_sub(a1, div_trunc(e, C1 as int)), q_add(bias, div_trunc(clamp_i32(e * P2PHI), C2 as int)))
    } else {
        (a1, bias)
    }
}

/// The reading with the calibration offset removed, saturated to `i16`.
pub open spec fn corrected(v: i16, offset: i16) -> i16 {
    clamp16(v - offset)
}

/// `sqrt(ay^2 + az^2)` in `Q16` for accelerations scaled to `Q16` g.
pub open spec fn horizontal_norm(ay: int, az: int) -> int {
    isqrt((q_add(q_mul(ay, ay), q_mul(az, az)) * 65536) as nat) as int
}

/// The filter after one update with offset-corrected readings.
pub open spec fn filtered(s: SensorsRaw, accel: Seq<i16>, gyro: Seq<i16>) -> SensorsRaw {
    let r = pitch_filtered(roll_filtered(s, gyro, accel), gyro, accel);
    SensorsRaw { yaw_der: Q16 { bits: div_trunc(gyro[2] * 65536, P2PHI as int) as i32 }, ..r }
}

fn trunc_div(a: i32, n: i32) -> (r: i32)
    requires
        n > 0,
    ensures
        r == div_trunc(a as int, n as int),
{
    if a >= 0 {
        a / n
    } else {
        proof {
            vstd::arithmetic::div_mod::lemma_div_is_ordered_by_denominator(-a, 1, n as int);
        }
        -((-(a as i64)) / (n as i64)) as i32
    }
}

fn step(angle: i32, bias: i32, g: i16, y: i32, x: i32) -> (r: (i32, i32))
    ensures
        r.0 as int == filter_step(angle as int, bias as int, g as int, y as int, x as int).0,
        r.1 as int == filter_step(angle as int, bias as int, g as int, y as int, x as int).1,
{
    let a1 = q16_add(angle, trunc_div(q16_sub(g as i32 * 65536, bias), P2PHI));
    let yi = y as i64;
    let xi = x as i64;
    let in_range: bool = if x == 0 || y == 0 {
        true
    } else if y == i32::MIN || x == i32::MIN {
        false
    } else {
        let n: i64 = yi * 65536;
        let q: i64 = if (n >= 0) == (xi > 0) {
            if n >= 0 {
                n / xi
            } else {
                (-n) / (-xi)
            }
        } else {
            if n >= 0 {
                -(n / (-xi))
            } else {
                -((-n) / xi)
            }
        };
        proof {
            assert(q == div_trunc(y * 65536, x as int));
        }
        -0x4000_0000 <= q && q <= 0x4000_0000
    };
    if in_range {
        let e = q16_sub(a1, atan2_i16f16(y, x));
        assert(-0x10_0000_0000_0000 <= e as int * 94000 <= 0x10_0000_0000_0000) by (nonlinear_arith)
            requires
                i32::MIN <= e <= i32::MAX,
        ;
        let wide: i64 = e as i64 * P2PHI as i64;
        let w: i32 = if wide > i32::MAX as i64 {
            i32::MAX
        } else if wide < i32::MIN as i64 {
            i32::MIN
        } else {
            wide as i32
        };
        (q16_sub(a1, trunc_div(e, C1)), q16_add(bias, trunc_div(w, C2)))
    } else {
        (a1, bias)
    }
}

fn correct(v: i16, offset: i16) -> (r: i16)
    ensures
        r == corrected(v, offset),
{
    let d: i32 = v as i32 - offset as i32;
    if d < i16::MIN as i32 {
        i16::MIN
    } else if d > i16::MAX as i32 {
        i16::MAX
    } else {
        d as i16
    }
}

/// Filter state: roll (`phi`), pitch (`theta`), their gyro biases and
/// their change over the last update, and the yaw rate.
#[derive(Debug, PartialEq, Eq, Structural, Clone, Copy)]
pub struct SensorsRaw {
    pub phi: Q16,
    pub phi_b: Q16,
    pub phi_der: Q16,
    pub theta: Q16,
    pub theta_b: Q16,
    pub theta_der: Q16,
    pub yaw_der: Q16,
}

impl SensorsRaw {
    /// All zero.
    pub fn new() -> (r: Self)
        ensures
            r.phi.bits == 0 && r.phi_b.bits == 0 && r.phi_der.bits == 0,
            r.theta.bits == 0 && r.theta_b.bits == 0 && r.theta_der.bits == 0,
            r.yaw_der.bits == 0,
    {
        let z = Q16 { bits: 0 };
        SensorsRaw { phi: z, phi_b: z, phi_der: z, theta: z, theta_b: z, theta_der: z, yaw_der: z }
    }

    pub fn get_yaw_value_der(&self) -> (r: Q16)
        ensures
            r == self.yaw_der,
    {
        self.yaw_der
    }

    pub fn get_pitch_der(&self) -> (r: Q16)
        ensures
            r == self.theta_der,
    {
        self.theta_der
    }

    pub fn get_pitch_value(&self) -> (r: Q16)
        ensures
            r == self.theta,
    {
        self.theta
    }

    pub fn get_roll_value(&self) -> (r: Q16)
        ensures
            r == self.phi,
    {
        self.phi
    }

    pub fn get_roll_der(&self) -> (r: Q16)
        ensures
            r == self.phi_der,
    {
        self.phi_der
    }

    /// The readings with the calibration offsets removed.
    pub fn read(calibration_data: &CalibrationData, accel: [i16; 3], gyro: [i16; 3]) -> (r: (
        [i16; 3],
        [i16; 3],
    ))
        ensures
            r.0@ == corrected_accel(*calibration_data, accel@),
            r.1@ == corrected_gyro(*calibration_data, gyro@),
    {
        let a: [i16; 3] = [
            correct(accel[0], calibration_data.accel_x_offset),
            correct(accel[1], calibration_data.accel_y_offset),
            correct(accel[2], calibration_data.accel_z_offset),
        ];
        let g: [i16; 3] = [
            correct(gyro[0], calibration_data.gyro_x_offset),
            correct(gyro[1], calibration_data.gyro_y_offset),
            correct(gyro[2], calibration_data.gyro_z_offset),
        ];
        assert(a@ =~= corrected_accel(*calibration_data, accel@));
        assert(g@ =~= corrected_gyro(*calibration_data, gyro@));
        (a, g)
    }

    /// One filter step for roll, on the gyro's x axis and the angle of
    /// `(ay, az)`.
    pub fn update_sensor_roll(&mut self, gyro: [i16; 3], accel: [i16; 3])
        ensures
            *final(self) == roll_filtered(*old(self), gyro@, accel@),
    {
        let ay = accel[1] as i32 * 4;
        let az = accel[2] as i32 * 4;
        let (phi, phi_b) = step(self.phi.bits, self.phi_b.bits, gyro[0], ay, az);
        let old_phi = self.phi.bits;
        self.phi = Q16 { bits: phi };
        self.phi_b = Q16 { bits: phi_b };
        self.phi_der = Q16 { bits: q16_sub(phi, old_phi) };
    }

    /// One filter step for pitch, on the gyro's y axis and the angle of
    /// `(ax, sqrt(ay^2 + az^2))`.
    pub fn update_sensor_pitch(&mut self, gyro: [i16; 3], accel: [i16; 3])
        ensures
            *final(self) == pitch_filtered(*old(self), gyro@, accel@),
    {
        let ax = accel[0] as i32 * 4;
        let ay = accel[1] as i32 * 4;
        let az = accel[2] as i32 * 4;
        let sum = q16_add(q16_mul(ay, ay), q16_mul(az, az));
        proof {
            assert(ay * ay >= 0 && az * az >= 0) by (nonlinear_arith);
            vstd::arithmetic::div_mod::lemma_div_is_ordered(0, ay * ay, 65536);
            vstd::arithmetic::div_mod::lemma_div_is_ordered(0, az * az, 65536);
        }
        let root = sqrt_i32f32(sum as i64 * 65536) / 65536;
        proof {
            let r = isqrt((sum * 65536) as nat);
            crate::motor_control::lemma_isqrt((sum * 65536) as nat);
            assert(r <= 0x8000_0000) by (nonlinear_arith)
                requires
                    r * r <= sum * 65536,
                    sum <= i32::MAX,
            ;
            vstd::arithmetic::div_mod::lemma_div_multiples_vanish(r as int, 65536);
        }
        let (theta, theta_b) = step(self.theta.bits, self.theta_b.bits, gyro[1], ax, root as i32);
        let old_theta = self.theta.bits;
        self.theta = Q16 { bits: theta };
        self.theta_b = Q16 { bits: theta_b };
        self.theta_der = Q16 { bits: q16_sub(theta, old_theta) };
    }

    /// The yaw rate from the gyro's z axis.
    pub fn update_sensor_yaw(&mut self, gyro: [i16; 3])
        ensures
            *final(self) == (SensorsRaw {
                yaw_der: Q16 { bits: div_trunc(gyro@[2] * 65536, P2PHI as int) as i32 },
                ..*old(self)
            }),
    {
        self.yaw_der = Q16 { bits: trunc_div(gyro[2] as i32 * 65536, P2PHI) };
    }

    /// One filter update from raw readings; calibration offsets are
    /// removed first.
    pub fn update_sensor_readings_raw(
        &mut self,
        calibration_data: &CalibrationData,
        accel: [i16; 3],
        gyro: [i16; 3],
    )
        ensures
            *final(self) == filtered(
                *old(self),
                corrected_accel(*calibration_data, accel@),
                corrected_gyro(*calibration_data, gyro@),
            ),
    {
        let (a, g) = Self::read(calibration_data, accel, gyro);
        self.update_sensor_roll(g, a);
        self.update_sensor_pitch(g, a);
        self.update_sensor_yaw(g);
    }
}

pub open spec fn corrected_accel(c: CalibrationData, a: Seq<i16>) -> Seq<i16> {
    seq![
        corrected(a[0], c.accel_x_offset),
        corrected(a[1], c.accel_y_offset),
        corrected(a[2], c.accel_z_offset),
    ]
}

pub open spec fn corrected_gyro(c: CalibrationData, g: Seq<i16>) -> Seq<i16> {
    seq![
        corrected(g[0], c.gyro_x_offset),
        corrected(g[1], c.gyro_y_offset),
        corrected(g[2], c.gyro_z_offset),
    ]
}

pub open spec fn roll_filtered(s: SensorsRaw, gyro: Seq<i16>, accel: Seq<i16>) -> SensorsRaw {
    let (phi, phi_b) = filter_step(
        s.phi.bits as int,
        s.phi_b.bits as int,
        gyro[0] as int,
        accel[1] * 4,
        accel[2] * 4,
    );
    SensorsRaw {
        phi: Q16 { bits: phi as i32 },
        phi_b: Q16 { bits: phi_b as i32 },
        phi_der: Q16 { bits: q_sub(phi, s.phi.bits as int) as i32 },
        ..s
    }
}

pub open spec fn pitch_filtered(s: SensorsRaw, gyro: Seq<i16>, accel: Seq<i16>) -> SensorsRaw {
    let (theta, theta_b) = filter_step(
        s.theta.bits as int,
        s.theta_b.bits as int,
        gyro[1] as int,
        accel[0] * 4,
        horizontal_norm(accel[1] * 4, accel[2] * 4),
    );
    SensorsRaw {
        theta: Q16 { bits: theta as i32 },
        theta_b: Q16 { bits: theta_b as i32 },
        theta_der: Q16 { bits: q_sub(theta, s.theta.bits as int) as i32 },
        ..s
    }
}

/// The attitude of a unit quaternion `(w, x, y, z)` (`Q16`):
/// yaw `atan2(2xy - 2wz, 2w^2 + 2x^2 - 1)`, pitch `atan2(gx, sqrt(gy^2 +
/// gz^2))`, roll `atan2(gy, gz)` with `gx = 2(xz - wy)`, `gy = 2(wx + yz)`,
/// `gz = w^2 - x^2 - y^2 + z^2`; `None` when an angle cannot be computed
/// without overflow.
pub open spec fn attitude_of(w: int, x: int, y: int, z: int) -> Option<YawPitchRoll> {
    let two: int = 2 * 65536int;
    let gx = q_mul(two, q_sub(q_mul(x, z), q_mul(w, y)));
    let gy = q_mul(two, q_add(q_mul(w, x), q_mul(y, z)));
    let gz = q_add(q_sub(q_sub(q_mul(w, w), q_mul(x, x)), q_mul(y, y)), q_mul(z, z));
    let yy = q_sub(q_mul(q_mul(two, x), y), q_mul(q_mul(two, w), z));
    let yx = q_sub(q_add(q_mul(q_mul(two, w), w), q_mul(q_mul(two, x), x)), 65536);
    let n: int = 256 * isqrt(q_add(q_mul(gy, gy), q_mul(gz, gz)) as nat) as int;
    if atan2_in_range(yy as i32, yx as i32) && atan2_in_range(gx as i32, n as i32)
        && atan2_in_range(gy as i32, gz as i32) {
        Some(
            YawPitchRoll {
                yaw: Q16 { bits: cordic_atan2(yy as i32, yx as i32) },
                pitch: Q16 { bits: cordic_atan2(gx as i32, n as i32) },
                roll: Q16 { bits: cordic_atan2(gy as i32, gz as i32) },
            },
        )
    } else {
        None
    }
}

fn in_range(y: i32, x: i32) -> (r: bool)
    ensures
        r == atan2_in_range(y, x),
{
    if x == 0 || y == 0 {
        return true;
    }
    if y == i32::MIN || x == i32::MIN {
        return false;
    }
    let n: i64 = y as i64 * 65536;
    let d: i64 = x as i64;
    let q: i64 = if (n >= 0) == (d > 0) {
        if n >= 0 {
            n / d
        } else {
            (-n) / (-d)
        }
    } else {
        if n >= 0 {
            -(n / (-d))
        } else {
            -((-n) / d)
        }
    };
    proof {
        assert(q == div_trunc(y * 65536, x as int));
    }
    -0x4000_0000 <= q && q <= 0x4000_0000
}

impl YawPitchRoll {
    /// The attitude of the motion processor's quaternion.
    pub fn from_quaternion(w: Q16, x: Q16, y: Q16, z: Q16) -> (r: Option<YawPitchRoll>)
        ensures
            r == attitude_of(w.bits as int, x.bits as int, y.bits as int, z.bits as int),
    {
        let two: i32 = 2 * 65536;
        let (w, x, y, z) = (w.bits, x.bits, y.bits, z.bits);
        let gx = q16_mul(two, q16_sub(q16_mul(x, z), q16_mul(w, y)));
        let gy = q16_mul(two, q16_add(q16_mul(w, x), q16_mul(y, z)));
        let gz = q16_add(q16_sub(q16_sub(q16_mul(w, w), q16_mul(x, x)), q16_mul(y, y)), q16_mul(z, z));
        let yy = q16_sub(q16_mul(q16_mul(two, x), y), q16_mul(q16_mul(two, w), z));
        let yx = q16_sub(q16_add(q16_mul(q16_mul(two, w), w), q16_mul(q16_mul(two, x), x)), 65536);
        let sq = q16_add(q16_mul(gy, gy), q16_mul(gz, gz));
        proof {
            assert(gy * gy >= 0 && gz * gz >= 0) by (nonlinear_arith);
            vstd::arithmetic::div_mod::lemma_div_is_ordered(0, gy * gy, 65536);
            vstd::arithmetic::div_mod::lemma_div_is_ordered(0, gz * gz, 65536);
            let rt = isqrt(sq as nat);
            crate::motor_control::lemma_isqrt(sq as nat);
            assert(rt <= 46341) by (nonlinear_arith)
                requires
                    rt * rt <= sq,
                    sq <= i32::MAX,
            ;
        }
        let n = sqrt_i16f16(sq);
        if in_range(yy, yx) && in_range(gx, n) && in_range(gy, gz) {
            Some(
                YawPitchRoll {
                    yaw: Q16 { bits: atan2_i16f16(yy, yx) },
                    pitch: Q16 { bits: atan2_i16f16(gx, n) },
                    roll: Q16 { bits: atan2_i16f16(gy, gz) },
                },
            )
        } else {
            None
        }
    }
}

} // verus!
