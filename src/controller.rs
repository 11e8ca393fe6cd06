//! The attitude controllers, in `Q16` fixed point: a proportional yaw-rate
//! controller and proportional-derivative roll and pitch controllers. Each
//! turns a pilot command and the sensed attitude into a pilot-equivalent
//! channel value in `[2, 2046]` for the motor mixer.
//!
//! Products and quotients saturate at the bounds of `Q16`; the response is
//! clipped to `[-1022, 1022]` in any case.
use vstd::prelude::*;
use crate::fixedpoint::{div_trunc, div_i16f16, mul_i16f16, to_int_i16f16};
use crate::protocol::Q16;

verus! {

/// `1.0` in `Q16`.
pub const ONE: i32 = 65536;

/// `0.75` in `Q16`.
pub const THREE_QUARTERS: i32 = 49152;

pub open spec fn clamp_i32(x: int) -> int {
    if x < i32::MIN {
        i32::MIN as int
    } else if x > i32::MAX {
        i32::MAX as int
    } else {
        x
    }
}

/// Saturating `Q16` product.
pub open spec fn q_mul(a: int, b: int) -> int {
    clamp_i32((a * b) / 65536)
}

/// Saturating `Q16` quotient, rounding toward zero.
pub open spec fn q_div(a: int, b: int) -> int {
    clamp_i32(div_trunc(a * 65536, b))
}

pub open spec fn q_add(a: int, b: int) -> int {
    clamp_i32(a + b)
}

pub open spec fn q_sub(a: int, b: int) -> int {
    clamp_i32(a - b)
}

/// The response clipped to `[-1022, 1022]`, shifted by 1024, rounded down.
pub open spec fn clip_and_scale(response: int) -> int {
    let r = if response < -1022 * 65536int {
        -1022 * 65536int
    } else if response > 1022 * 65536int {
        1022 * 65536int
    } else {
        response
    };
    (r + 1024 * 65536int) / 65536
}

pub(crate) fn q16_mul(a: i32, b: i32) -> (r: i32)
    ensures
        r == q_mul(a as int, b as int),
{
    assert(-0x4000_0000_0000_0000 <= a as int * b as int <= 0x4000_0000_0000_0000) by (nonlinear_arith)
        requires
            i32::MIN <= a <= i32::MAX,
            i32::MIN <= b <= i32::MAX,
    ;
    let p: i64 = a as i64 * b as i64;
    if -0x8000_0000_0000i64 < p && p < 0x8000_0000_0000i64 {
        mul_i16f16(a, b)
    } else if p > 0 {
        proof {
            assert(p / 65536 >= 0x8000_0000_0000i64 / 65536) by {
                vstd::arithmetic::div_mod::lemma_div_is_ordered(0x8000_0000_0000, p as int, 65536);
            }
        }
        i32::MAX
    } else {
        proof {
            assert(p / 65536 <= -0x8000_0000_0000i64 / 65536) by {
                vstd::arithmetic::div_mod::lemma_div_is_ordered(p as int, -0x8000_0000_0000, 65536);
            }
        }
        i32::MIN
    }
}

pub(crate) fn q16_div(a: i32, b: i32) -> (r: i32)
    requires
        b != 0,
    ensures
        r == q_div(a as int, b as int),
{
    let n: i64 = a as i64 * 65536;
    let d: i64 = b as i64;
    let q: i64 = if (n >= 0) == (d > 0) || n == 0 {
        if n >= 0 {
            n / d
        } else {
            (-n) / (-d)
        }
    } else {
        if n >= 0 {
            -(n / (-d))
        } else {
            -((-n) / d)
        }
    };
    proof {
        assert(q == div_trunc(a as int * 65536, b as int));
        assert(-0x8000_0000_0000i64 <= q <= 0x8000_0000_0000i64) by {
            if n >= 0 && d > 0 {
                vstd::arithmetic::div_mod::lemma_div_is_ordered_by_denominator(n as int, 1, d as int);
            } else if n < 0 && d < 0 {
                vstd::arithmetic::div_mod::lemma_div_is_ordered_by_denominator(-n, 1, -d);
            } else if n >= 0 {
                vstd::arithmetic::div_mod::lemma_div_is_ordered_by_denominator(n as int, 1, -d);
            } else {
                vstd::arithmetic::div_mod::lemma_div_is_ordered_by_denominator(-n, 1, d as int);
            }
        }
    }
    if q < i32::MIN as i64 {
        i32::MIN
    } else if q > i32::MAX as i64 {
        i32::MAX
    } else {
        div_i16f16(a, b)
    }
}

pub(crate) fn q16_add(a: i32, b: i32) -> (r: i32)
    ensures
        r == q_add(a as int, b as int),
{
    let s: i64 = a as i64 + b as i64;
    if s < i32::MIN as i64 {
        i32::MIN
    } else if s > i32::MAX as i64 {
        i32::MAX
    } else {
        s as i32
    }
}

pub(crate) fn q16_sub(a: i32, b: i32) -> (r: i32)
    ensures
        r == q_sub(a as int, b as int),
{
    let s: i64 = a as i64 - b as i64;
    if s < i32::MIN as i64 {
        i32::MIN
    } else if s > i32::MAX as i64 {
        i32::MAX
    } else {
        s as i32
    }
}

/// Clips the response to `[-1022, 1022]` and shifts it to a channel value.
pub fn clip_and_scale_response(response: Q16) -> (r: u16)
    ensures
        r == clip_and_scale(response.bits as int),
        2 <= r <= 2046,
{
    let lo: i32 = -1022 * ONE;
    let hi: i32 = 1022 * ONE;
    let c = if response.bits < lo {
        lo
    } else if response.bits > hi {
        hi
    } else {
        response.bits
    };
    let v = to_int_i16f16(c + 1024 * ONE);
    proof {
        vstd::arithmetic::div_mod::lemma_div_is_ordered(2 * 65536int, c + 1024 * 65536int, 65536);
        vstd::arithmetic::div_mod::lemma_div_is_ordered(c + 1024 * 65536int, 2046 * 65536int, 65536);
    }
    v as u16
}

/// The yaw-rate error `command/64 - rate*64` for the yaw angles
/// `new`, `old` (offsets removed) and the tick length `dt_ms`.
pub open spec fn yaw_error(command: int, new: int, old: int, dt_ms: int) -> int {
    let rate = q_div(q_sub(q_mul(old, 100 * 65536int), q_mul(new, 100 * 65536int)), dt_ms * 65536);
    q_sub(q_div(command * 65536, 64 * 65536int), q_mul(rate, 64 * 65536int))
}

/// The yaw-rate controller's channel value: `clip(5 * P * error)`.
pub open spec fn yaw_response(p: int, command: int, new: int, old: int, dt_ms: int) -> int {
    clip_and_scale(q_mul(q_mul(p, yaw_error(command, new, old, dt_ms)), 5 * 65536int))
}

/// Proportional yaw-rate control on the motion processor's yaw (`new`,
/// `old`: this and the previous reading, offsets removed).
pub fn yaw_control_dmp(yaw_command: i32, p: Q16, new: Q16, old: Q16, dt_ms: u32) -> (r: u16)
    requires
        -1024 <= yaw_command <= 1024,
        1 <= dt_ms <= 32767,
    ensures
        r == yaw_response(p.bits as int, yaw_command as int, new.bits as int, old.bits as int, dt_ms as int),
{
    let yn = q16_mul(new.bits, 100 * ONE);
    let yo = q16_mul(old.bits, 100 * ONE);
    let rate = q16_div(q16_sub(yo, yn), dt_ms as i32 * ONE);
    let error = q16_sub(q16_div(yaw_command * ONE, 64 * ONE), q16_mul(rate, 64 * ONE));
    let response = q16_mul(q16_mul(p.bits, error), 5 * ONE);
    clip_and_scale_response(Q16 { bits: response })
}

/// The set point term `setp/30 - new*100*0.75` shared by the roll and
/// pitch controllers.
pub open spec fn attitude_error(setp: int, new: int) -> int {
    q_sub(q_div(setp * 65536, 30 * 65536int), q_mul(q_mul(new, 100 * 65536int), 49152))
}

/// Roll (`sign = 1`) or pitch (`sign = -1`) from the motion processor:
/// `clip(P1 * error + sign * P2 * rate)`, with `rate = (old - new) * 100 / dt`.
pub open spec fn dmp_attitude_response(
    p1: int,
    p2: int,
    setp: int,
    old: int,
    new: int,
    dt_ms: int,
    sign: int,
) -> int {
    let rate = q_div(q_sub(q_mul(old, 100 * 65536int), q_mul(new, 100 * 65536int)), dt_ms * 65536);
    let pd = q_mul(p1, attitude_error(setp, new));
    let dd = q_mul(p2, rate);
    clip_and_scale(
        if sign > 0 {
            q_add(pd, dd)
        } else {
            q_sub(pd, dd)
        },
    )
}

fn pitch_roll_control_dmp(
    setp: i32,
    old: Q16,
    new: Q16,
    p1: Q16,
    p2: Q16,
    dt_ms: u32,
    plus: bool,
) -> (r: u16)
    requires
        -1024 <= setp <= 1024,
        1 <= dt_ms <= 32767,
    ensures
        r == dmp_attitude_response(
            p1.bits as int,
            p2.bits as int,
            setp as int,
            old.bits as int,
            new.bits as int,
            dt_ms as int,
            if plus {
                1
            } else {
                -1
            },
        ),
{
    let o = q16_mul(old.bits, 100 * ONE);
    let n = q16_mul(new.bits, 100 * ONE);
    let rate = q16_div(q16_sub(o, n), dt_ms as i32 * ONE);
    let err = q16_sub(q16_div(setp * ONE, 30 * ONE), q16_mul(n, THREE_QUARTERS));
    let pd = q16_mul(p1.bits, err);
    let dd = q16_mul(p2.bits, rate);
    let response = if plus {
        q16_add(pd, dd)
    } else {
        q16_sub(pd, dd)
    };
    clip_and_scale_response(Q16 { bits: response })
}

/// Roll control on the motion processor's roll; the rate term is added.
pub fn roll_control_dmp(setp: i32, old: Q16, new: Q16, p1: Q16, p2: Q16, dt_ms: u32) -> (r: u16)
    requires
        -1024 <= setp <= 1024,
        1 <= dt_ms <= 32767,
    ensures
        r == dmp_attitude_response(
            p1.bits as int,
            p2.bits as int,
            setp as int,
            old.bits as int,
            new.bits as int,
            dt_ms as int,
            1,
        ),
{
    pitch_roll_control_dmp(setp, old, new, p1, p2, dt_ms, true)
}

/// Pitch control on the motion processor's pitch; the rate term is
/// subtracted.
pub fn pitch_control_dmp(setp: i32, old: Q16, new: Q16, p1: Q16, p2: Q16, dt_ms: u32) -> (r: u16)
    requires
        -1024 <= setp <= 1024,
        1 <= dt_ms <= 32767,
    ensures
        r == dmp_attitude_response(
            p1.bits as int,
            p2.bits as int,
            setp as int,
            old.bits as int,
            new.bits as int,
            dt_ms as int,
            -1,
        ),
{
    pitch_roll_control_dmp(setp, old, new, p1, p2, dt_ms, false)
}

/// Yaw-rate control on the filtered gyro yaw rate `der` (rad per tick).
pub open spec fn raw_yaw_response(p: int, command: int, der: int, dt_ms: int) -> int {
    let rate = q_div(q_mul(der, 100 * 65536int), dt_ms * 65536);
    let error = q_sub(q_div(command * 65536, 64 * 65536int), q_mul(rate, 64 * 65536int));
    clip_and_scale(q_mul(q_mul(p, error), 5 * 65536int))
}

pub fn yaw_control_raw(yaw_command: i32, p: Q16, der: Q16, dt_ms: u32) -> (r: u16)
    requires
        -1024 <= yaw_command <= 1024,
        1 <= dt_ms <= 32767,
    ensures
        r == raw_yaw_response(p.bits as int, yaw_command as int, der.bits as int, dt_ms as int),
{
    let d = q16_mul(der.bits, 100 * ONE);
    let rate = q16_div(d, dt_ms as i32 * ONE);
    let error = q16_sub(q16_div(yaw_command * ONE, 64 * ONE), q16_mul(rate, 64 * ONE));
    let response = q16_mul(q16_mul(p.bits, error), 5 * ONE);
    clip_and_scale_response(Q16 { bits: response })
}

/// Roll or pitch from the complementary filter: `clip(P1 * error - P2 *
/// der / dt)`.
pub open spec fn raw_attitude_response(p1: int, p2: int, setp: int, der: int, new: int, dt_ms: int) -> int {
    let rate = q_div(der, dt_ms * 65536);
    clip_and_scale(q_sub(q_mul(p1, attitude_error(setp, new)), q_mul(p2, rate)))
}

fn pitch_roll_control_raw(setp: i32, der: Q16, new: Q16, p1: Q16, p2: Q16, dt_ms: u32) -> (r: u16)
    requires
        -1024 <= setp <= 1024,
        1 <= dt_ms <= 32767,
    ensures
        r == raw_attitude_response(
            p1.bits as int,
            p2.bits as int,
            setp as int,
            der.bits as int,
            new.bits as int,
            dt_ms as int,
        ),
{
    let n = q16_mul(new.bits, 100 * ONE);
    let rate = q16_div(der.bits, dt_ms as i32 * ONE);
    let err = q16_sub(q16_div(setp * ONE, 30 * ONE), q16_mul(n, THREE_QUARTERS));
    let response = q16_sub(q16_mul(p1.bits, err), q16_mul(p2.bits, rate));
    clip_and_scale_response(Q16 { bits: response })
}

pub fn roll_control_raw(setp: i32, der: Q16, new: Q16, p1: Q16, p2: Q16, dt_ms: u32) -> (r: u16)
    requires
        -1024 <= setp <= 1024,
        1 <= dt_ms <= 32767,
    ensures
        r == raw_attitude_response(
            p1.bits as int,
            p2.bits as int,
            setp as int,
            der.bits as int,
            new.bits as int,
            dt_ms as int,
        ),
{
    pitch_roll_control_raw(setp, der, new, p1, p2, dt_ms)
}

pub fn pitch_control_raw(setp: i32, der: Q16, new: Q16, p1: Q16, p2: Q16, dt_ms: u32) -> (r: u16)
    requires
        -1024 <= setp <= 1024,
        1 <= dt_ms <= 32767,
    ensures
        r == raw_attitude_response(
            p1.bits as int,
            p2.bits as int,
            setp as int,
            der.bits as int,
            new.bits as int,
            dt_ms as int,
        ),
{
    pitch_roll_control_raw(setp, der, new, p1, p2, dt_ms)
}

} // verus!
