//! The motor mixer: maps a pilot command `[lift, roll, pitch, yaw]` to the
//! four rotor commands.
use vstd::prelude::*;
use crate::fixedpoint::{isqrt, div_i26f6, mul_i26f6, sqrt_i26f6, to_int_i26f6};

verus! {

pub const MAX_THRUST: i32 = 600;

pub const MAX_MOTOR_COMMAND: u16 = 800;

pub const MOTOR_STALL: u16 = 180;

pub const MAX_INPUT_COMMAND: u16 = 2047;

pub const MIN_THRUST_COMMAND: u16 = 10;

pub const THROTTLE_A1: i32 = 12;

pub const THROTTLE_A0: i32 = 144;

pub const MIN_ROLL_MODIF: i32 = -200;

pub const MAX_ROLL_MODIF: i32 = 200;

pub const MIN_PITCH_MODIF: i32 = -200;

pub const MAX_PITCH_MODIF: i32 = 200;

pub const MIN_YAW_MODIF: i32 = -300;

pub const MAX_YAW_MODIF: i32 = 300;

/// Fixed-point scale of `I26F6`.
const ONE: i32 = 64;

#[derive(Debug, PartialEq, Eq, Structural, Clone, Copy)]
pub enum MappingError {
    InputOutOfBounds,
}

/// `min(MAX_THRUST, a1 * sqrt(lift) + a0)` in `I26F6`, with
/// `sqrt(lift) = isqrt(64 * lift) / 8`.
pub open spec fn throttle_of(lift: int) -> int {
    let t: int = 144 + (3 * isqrt((64 * lift) as nat)) as int / 2;
    if t < 600 {
        t
    } else {
        600
    }
}

/// Whether a maximal roll/pitch and a maximal yaw modifier together would
/// push a motor below the stall line.
pub open spec fn stalls(until_stall: int) -> bool {
    until_stall < MAX_PITCH_MODIF + MAX_YAW_MODIF || until_stall < MAX_ROLL_MODIF + MAX_YAW_MODIF
}

/// The linear map of a command in `[-1024, 1023]` onto `[lo, hi]`.
pub open spec fn raw_modifier(command: int, lo: int, hi: int) -> int {
    lo + ((command + 1024) * (hi - lo)) / 2047
}

/// The modifier of one axis: the mapped command, capped near the stall line
/// to this axis' share `range * until_stall / (range + other)`.
pub open spec fn modifier(command: int, until_stall: int, lo: int, hi: int, other: int) -> int {
    let m = raw_modifier(command, lo, hi);
    let cap = ((hi - lo) * until_stall) / ((hi - lo) + other);
    if until_stall < 0 || m == 0 {
        0
    } else if stalls(until_stall) {
        if m > 0 {
            if m < cap {
                m
            } else {
                cap
            }
        } else {
            if m > -cap {
                m
            } else {
                -cap
            }
        }
    } else {
        m
    }
}

pub open spec fn clamp_motor(v: int) -> u16 {
    if v < 0 {
        0
    } else if v > 800 {
        800
    } else {
        v as u16
    }
}

/// The four rotor commands for a command with `lift > MIN_THRUST_COMMAND`.
pub open spec fn mix(input: Seq<u16>) -> Seq<u16> {
    let t = throttle_of(input[0] as int);
    let us = t - 180;
    let rm = modifier(input[1] - 1024, us, -200, 200, 600);
    let pm = modifier(input[2] - 1024, us, -200, 200, 600);
    let ym = modifier(input[3] - 1024, us, -300, 300, 400);
    seq![
        clamp_motor(t + pm + ym),
        clamp_motor(t - rm - ym),
        clamp_motor(t - pm + ym),
        clamp_motor(t + rm - ym),
    ]
}

/// What `motor_mapping` returns for a valid input.
pub open spec fn motor_map(input: Seq<u16>) -> Seq<u16> {
    if input[0] <= MIN_THRUST_COMMAND {
        seq![0u16, 0u16, 0u16, 0u16]
    } else {
        mix(input)
    }
}

pub open spec fn in_bounds(input: Seq<u16>) -> bool {
    forall|i: int| 0 <= i < input.len() ==> #[trigger] input[i] <= MAX_INPUT_COMMAND
}

/// Whether the motors stall with maximal modifiers.
fn check_stall(until_stall: i32) -> (r: bool)
    ensures
        r == stalls(until_stall as int),
{
    if until_stall < MAX_PITCH_MODIF + MAX_YAW_MODIF || until_stall < MAX_ROLL_MODIF
        + MAX_YAW_MODIF {
        return true;
    }
    false
}

/// `lo + (command - from_l) * (hi - lo) / (from_h - from_l)` in `I26F6`, for
/// the command range `[-1024, 1023]`.
fn map_range(command: i32, lo: i32, hi: i32) -> (r: i32)
    requires
        -1024 <= command <= 1023,
        -300 <= lo < hi <= 300,
    ensures
        r == raw_modifier(command as int, lo as int, hi as int),
        lo <= r <= hi,
{
    let d = command + 1024;
    let a = d * ONE;
    let b = (hi - lo) * ONE;
    assert(0 <= a * b <= (2047 * 64) * (600 * 64)) by (nonlinear_arith)
        requires
            0 <= a <= 2047 * 64,
            0 < b <= 600 * 64,
    ;
    let prod = mul_i26f6(a, b);
    assert((d * 64) * ((hi - lo) * 64) == (d * (hi - lo)) * 64 * 64) by (nonlinear_arith);
    assert(((d * (hi - lo)) * 64 * 64) / 64 == (d * (hi - lo)) * 64) by (nonlinear_arith);
    assert(0 <= d * (hi - lo) <= 2047 * 600) by (nonlinear_arith)
        requires
            0 <= d <= 2047,
            0 < hi - lo <= 600,
    ;
    let q = div_i26f6(prod, 2047 * ONE);
    let ghost x: int = d * (hi - lo);
    proof {
        assert(prod * 64 == 64 * (x * 64)) by (nonlinear_arith)
            requires
                prod == x * 64,
        ;
        vstd::arithmetic::div_mod::lemma_div_multiples_vanish_quotient(64, x * 64, 2047);
        assert(q == (x * 64) / 2047);
        vstd::arithmetic::div_mod::lemma_div_denominator(x * 64, 2047, 64);
        assert(2047 * 64 == 64 * 2047);
        vstd::arithmetic::div_mod::lemma_div_multiples_vanish_quotient(64, x, 2047);
        assert(x * 64 == 64 * x);
        assert(q / 64 == x / 2047);
        vstd::arithmetic::div_mod::lemma_div_is_ordered(x * 64, 2047int * 600 * 64, 2047);
        vstd::arithmetic::div_mod::lemma_div_is_ordered(0, x * 64, 2047);
        assert(0 <= q <= 600 * 64);
        assert(x <= 2047 * (hi - lo)) by (nonlinear_arith)
            requires
                x == d * (hi - lo),
                d <= 2047,
                hi - lo > 0,
        ;
        vstd::arithmetic::div_mod::lemma_div_is_ordered(x, 2047 * (hi - lo), 2047);
        vstd::arithmetic::div_mod::lemma_div_multiples_vanish(hi - lo, 2047);
        vstd::arithmetic::div_mod::lemma_hoist_over_denominator(q as int, lo as int, 64);
        assert(lo * 64 == lo as int * 64);
    }
    let s = lo * ONE + q;
    let r = to_int_i26f6(s);
    r
}


/// The modifier of one axis for a command in `[-1024, 1023]` mapped onto
/// `[lo, hi]`, capped near the stall line against the other axis' range.
fn get_modifier(command: i32, until_stall: i32, lo: i32, hi: i32, other: i32) -> (r: i32)
    requires
        -1024 <= command <= 1023,
        -300 <= lo < 0 < hi <= 300,
        0 < other <= 600,
        until_stall <= 420,
    ensures
        r == modifier(command as int, until_stall as int, lo as int, hi as int, other as int),
        lo <= r <= hi,
{
    if until_stall < 0 {
        return 0;
    }
    let mut m = map_range(command, lo, hi);
    if m == 0 {
        return 0;
    }
    if check_stall(until_stall) {
        let range = hi - lo;
        let tcr = range * ONE;
        let ocr = other * ONE;
        let usb = until_stall * ONE;
        assert(0 <= tcr * usb <= (600 * 64) * (420 * 64)) by (nonlinear_arith)
            requires
                0 < tcr <= 600 * 64,
                0 <= usb <= 420 * 64,
        ;
        let p = mul_i26f6(tcr, usb);
        let ghost y: int = range * until_stall;
        let ghost z: int = range + other;
        proof {
            assert(tcr * usb == 64 * (y * 64)) by (nonlinear_arith)
                requires
                    tcr == range * 64,
                    usb == until_stall * 64,
                    y == range * until_stall,
            ;
            vstd::arithmetic::div_mod::lemma_div_multiples_vanish(y * 64, 64);
            assert(p == y * 64);
            assert(0 <= y <= 600 * 420) by (nonlinear_arith)
                requires
                    0 < range <= 600,
                    0 <= until_stall <= 420,
                    y == range * until_stall,
            ;
            assert(p * 64 == 64 * (y * 64));
            assert(tcr + ocr == 64 * z);
            vstd::arithmetic::div_mod::lemma_div_multiples_vanish_quotient(64, y * 64, z);
            vstd::arithmetic::div_mod::lemma_div_is_ordered(y * 64, 600int * 420 * 64, z);
            vstd::arithmetic::div_mod::lemma_div_is_ordered(0, y * 64, z);
            vstd::arithmetic::div_mod::lemma_div_is_ordered_by_denominator(600int * 420 * 64, 1, z);
        }
        let c = div_i26f6(p, tcr + ocr);
        let capped = to_int_i26f6(c);
        proof {
            assert(c == (y * 64) / z);
            vstd::arithmetic::div_mod::lemma_div_denominator(y * 64, z, 64);
            vstd::arithmetic::div_mod::lemma_div_multiples_vanish_quotient(64, y, z);
            assert(y * 64 == 64 * y);
            assert(z * 64 == 64 * z);
            assert(capped == y / z);
            vstd::arithmetic::div_mod::lemma_div_is_ordered(0, y, z);
        }
        if m > 0 {
            if capped < m {
                m = capped;
            }
        } else if m < 0 {
            if -capped > m {
                m = -capped;
            }
        }
    }
    m
}

fn get_roll_modifier(roll: i32, until_stall: i32) -> (r: i32)
    requires
        -1024 <= roll <= 1023,
        until_stall <= 420,
    ensures
        r == modifier(roll as int, until_stall as int, -200, 200, 600),
        -200 <= r <= 200,
{
    get_modifier(roll, until_stall, MIN_ROLL_MODIF, MAX_ROLL_MODIF, MAX_YAW_MODIF - MIN_YAW_MODIF)
}

fn get_pitch_modifier(pitch: i32, until_stall: i32) -> (r: i32)
    requires
        -1024 <= pitch <= 1023,
        until_stall <= 420,
    ensures
        r == modifier(pitch as int, until_stall as int, -200, 200, 600),
        -200 <= r <= 200,
{
    get_modifier(
        pitch,
        until_stall,
        MIN_PITCH_MODIF,
        MAX_PITCH_MODIF,
        MAX_YAW_MODIF - MIN_YAW_MODIF,
    )
}

fn get_yaw_modifier(yaw: i32, until_stall: i32) -> (r: i32)
    requires
        -1024 <= yaw <= 1023,
        until_stall <= 420,
    ensures
        r == modifier(yaw as int, until_stall as int, -300, 300, 400),
        -300 <= r <= 300,
{
    let a = MAX_ROLL_MODIF - MIN_ROLL_MODIF;
    let b = MAX_PITCH_MODIF - MIN_PITCH_MODIF;
    let other = if a < b {
        b
    } else {
        a
    };
    get_modifier(yaw, until_stall, MIN_YAW_MODIF, MAX_YAW_MODIF, other)
}

/// `isqrt(n)` is the floor of the square root of `n`.
pub proof fn lemma_isqrt(n: nat)
    ensures
        isqrt(n) * isqrt(n) <= n < (isqrt(n) + 1) * (isqrt(n) + 1),
    decreases n,
{
    if n > 0 {
        let m = (n - 1) as nat;
        lemma_isqrt(m);
        let r = isqrt(m);
        assert(isqrt(n) == (if (r + 1) * (r + 1) <= n {
            r + 1
        } else {
            r
        }));
        if (r + 1) * (r + 1) <= n {
            assert(n < (r + 2) * (r + 2)) by (nonlinear_arith)
                requires
                    m < (r + 1) * (r + 1),
                    n == m + 1,
            ;
        } else {
            assert(r * r <= n);
        }
    } else {
        assert(isqrt(0) == 0);
        assert((0nat + 1) * (0nat + 1) == 1) by (nonlinear_arith);
    }
}

fn clamp_to_motor(v: i32) -> (r: u16)
    ensures
        r == clamp_motor(v as int),
{
    if v < 0 {
        0
    } else if v > MAX_MOTOR_COMMAND as i32 {
        MAX_MOTOR_COMMAND
    } else {
        v as u16
    }
}

/// Maps `[lift, roll, pitch, yaw]`, each in `[0, 2047]`, to the four rotor
/// commands in `[0, 800]`.
///
/// Fails with `InputOutOfBounds` exactly when a channel exceeds 2047. A lift
/// of at most `MIN_THRUST_COMMAND` gives `[0, 0, 0, 0]`.
pub fn motor_mapping(input: [u16; 4]) -> (r: Result<[u16; 4], MappingError>)
    ensures
        r.is_err() <==> !in_bounds(input@),
        r matches Err(e) ==> e == MappingError::InputOutOfBounds,
        r matches Ok(out) ==> out@ == motor_map(input@),
        r matches Ok(out) ==> forall|i: int| 0 <= i < 4 ==> #[trigger] out@[i] <= MAX_MOTOR_COMMAND,
{
    let mut i: usize = 0;
    while i < 4
        invariant
            i <= 4,
            forall|j: int| 0 <= j < i ==> #[trigger] input@[j] <= MAX_INPUT_COMMAND,
        decreases 4 - i,
    {
        if input[i] > MAX_INPUT_COMMAND {
            return Err(MappingError::InputOutOfBounds);
        }
        i = i + 1;
    }
    if input[0] <= MIN_THRUST_COMMAND {
        let out: [u16; 4] = [0, 0, 0, 0];
        assert(out@ =~= seq![0u16, 0u16, 0u16, 0u16]);
        return Ok(out);
    }
    let lift = input[0] as i32;
    let root = sqrt_i26f6(lift * ONE);
    let ghost rt: int = isqrt((lift * 64) as nat) as int;
    proof {
        lemma_isqrt((lift * 64) as nat);
        assert(rt <= 362) by (nonlinear_arith)
            requires
                rt * rt <= lift * 64,
                lift <= 2047,
        ;
    }
    let curved = mul_i26f6(root, THROTTLE_A1 * ONE);
    proof {
        assert(root * (12 * 64) == 64 * (root * 12)) by (nonlinear_arith);
        vstd::arithmetic::div_mod::lemma_div_multiples_vanish(root * 12, 64);
    }
    let tb = curved + THROTTLE_A0 * ONE;
    let t0 = to_int_i26f6(tb);
    proof {
        assert(tb == 96 * rt + 144 * 64);
        vstd::arithmetic::div_mod::lemma_hoist_over_denominator(96 * rt, 144, 64);
        vstd::arithmetic::div_mod::lemma_div_multiples_vanish_quotient(32, 3 * rt, 2);
        assert(32 * (3 * rt) == 96 * rt) by (nonlinear_arith);
        assert(t0 == 144 + (3 * rt) / 2);
    }
    let throttle: i32 = if t0 < MAX_THRUST {
        t0
    } else {
        MAX_THRUST
    };
    let until_stall = throttle - MOTOR_STALL as i32;
    let roll = input[1] as i32 - 1024;
    let pitch = input[2] as i32 - 1024;
    let yaw = input[3] as i32 - 1024;
    let rm = get_roll_modifier(roll, until_stall);
    let pm = get_pitch_modifier(pitch, until_stall);
    let ym = get_yaw_modifier(yaw, until_stall);
    let out: [u16; 4] = [
        clamp_to_motor(throttle + pm + ym),
        clamp_to_motor(throttle - rm - ym),
        clamp_to_motor(throttle - pm + ym),
        clamp_to_motor(throttle + rm - ym),
    ];
    assert(out@ =~= mix(input@));
    Ok(out)
}


/// A lift of zero stops every motor, whatever the other channels.
pub proof fn lemma_zero_lift(input: Seq<u16>)
    requires
        input.len() == 4,
        input[0] == 0,
    ensures
        motor_map(input) == seq![0u16, 0u16, 0u16, 0u16],
{
}

/// With roll, pitch and yaw centred at 1024, the four motors get equal
/// commands, whatever the lift.
pub proof fn lemma_hover(lift: u16)
    requires
        lift <= MAX_INPUT_COMMAND,
    ensures
        ({
            let out = motor_map(seq![lift, 1024u16, 1024u16, 1024u16]);
            &&& out[0] == out[1]
            &&& out[1] == out[2]
            &&& out[2] == out[3]
        }),
{
    vstd::arithmetic::div_mod::lemma_div_multiples_vanish_fancy(200, 200, 2047);
    vstd::arithmetic::div_mod::lemma_div_multiples_vanish_fancy(300, 300, 2047);
    assert(raw_modifier(0, -200, 200) == 0);
    assert(raw_modifier(0, -300, 300) == 0);
}

} // verus!
