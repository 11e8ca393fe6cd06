use quadcore::controller::{
    clip_and_scale_response, pitch_control_dmp, pitch_control_raw, roll_control_dmp, yaw_control_dmp,
    yaw_control_raw,
};
use quadcore::drone::CalibrationData;
use quadcore::input::{
    clip_to_valid_range, decrement_lift_trim, get_mode_pressed, get_throttle, get_yaw,
    increment_lift_trim, increment_yaw_trim, reset_keyboard_values, set_mode_pressed, InputState,
};
use quadcore::periodic::Timer;
use quadcore::protocol::{DroneMode, Q16};
use quadcore::sensors::SensorsRaw;

fn q(v: i32) -> Q16 {
    Q16 { bits: v << 16 }
}

#[test]
fn response_is_clipped_and_shifted() {
    assert_eq!(clip_and_scale_response(Q16 { bits: 0 }), 1024);
    assert_eq!(clip_and_scale_response(q(5000)), 2046);
    assert_eq!(clip_and_scale_response(q(-5000)), 2);
    assert_eq!(clip_and_scale_response(Q16 { bits: (10 << 16) + 0x8000 }), 1034);
    assert_eq!(clip_and_scale_response(Q16 { bits: i32::MIN }), 2);
}

#[test]
fn yaw_rate_controller_exact() {
    // no rotation: error = 64 / 64 = 1, response = 5 * P * 1 = 25
    assert_eq!(yaw_control_dmp(64, q(5), q(0), q(0), 10), 1049);
    assert_eq!(yaw_control_dmp(-64, q(5), q(0), q(0), 10), 999);
    // zero gain holds the centre
    assert_eq!(yaw_control_dmp(1000, q(0), q(1), q(2), 10), 1024);
}

#[test]
fn yaw_rate_controller_follows_rotation() {
    // old - new = 0.01 rad in 10 ms: rate 0.1 * 64 = 6.4 against the command
    let still = yaw_control_dmp(0, q(1), Q16 { bits: 0 }, Q16 { bits: 0 }, 10);
    let turning = yaw_control_dmp(0, q(1), Q16 { bits: 0 }, Q16 { bits: 655 }, 10);
    assert_eq!(still, 1024);
    assert!(turning < still);
}

#[test]
fn roll_and_pitch_differ_in_rate_sign() {
    // old - new = 1 rad in 10 ms: rate 10
    let r = roll_control_dmp(0, q(1), q(0), q(1), q(1), 10);
    let p = pitch_control_dmp(0, q(1), q(0), q(1), q(1), 10);
    assert_eq!(r, 1034);
    assert_eq!(p, 1014);
    assert_eq!(r - 1024, 1024 - p);
}

#[test]
fn set_point_term() {
    // 300 / 30 = 10 with P1 = 1
    assert_eq!(roll_control_dmp(300, q(0), q(0), q(1), q(0), 10), 1034);
    assert_eq!(pitch_control_raw(-300, q(0), q(0), q(1), q(0), 10), 1014);
}

#[test]
fn raw_yaw_controller() {
    assert_eq!(yaw_control_raw(64, q(5), Q16 { bits: 0 }, 10), 1049);
}

#[test]
fn complementary_filter_moves_toward_accelerometer() {
    let mut s = SensorsRaw::new();
    let c = CalibrationData::new();
    // tilted 45 degrees about the roll axis
    s.update_sensor_readings_raw(&c, [0, 16384, 16384], [0, 0, 0]);
    // pi/4 = 51472, corrected by 1/50 of the error
    assert!(s.phi.bits > 1000 && s.phi.bits < 1060, "phi = {}", s.phi.bits);
    assert_eq!(s.phi_der.bits, s.phi.bits);
    assert!(s.phi_b.bits < 0);
    // level pitch: atan2(0, ...) is 0
    assert_eq!(s.theta.bits, 0);
}

#[test]
fn complementary_filter_pitch_uses_norm() {
    let mut s = SensorsRaw::new();
    let c = CalibrationData::new();
    s.update_sensor_readings_raw(&c, [16384, 0, 16384], [0, 0, 940]);
    assert!(s.theta.bits > 1000 && s.theta.bits < 1060, "theta = {}", s.theta.bits);
    // yaw rate: 940 / 94000 = 0.01 rad
    assert_eq!(s.yaw_der.bits, 655);
}

#[test]
fn filter_removes_offsets() {
    let mut s = SensorsRaw::new();
    let mut c = CalibrationData::new();
    c.gyro_z_offset = 940;
    s.update_sensor_readings_raw(&c, [0, 0, 16384], [0, 0, 940]);
    assert_eq!(s.yaw_der.bits, 0);
}

#[test]
fn input_clipping() {
    assert_eq!(clip_to_valid_range(-5), 0);
    assert_eq!(clip_to_valid_range(0), 0);
    assert_eq!(clip_to_valid_range(1000), 1000);
    assert_eq!(clip_to_valid_range(2047), 2047);
    assert_eq!(clip_to_valid_range(5000), 2047);
}

#[test]
fn joystick_and_keyboard_add_up() {
    let mut js = InputState::new(0, 0, 0);
    let mut kb = InputState::new(25, 6, 57);
    js.set_throttle(1000);
    increment_lift_trim(&mut kb);
    increment_lift_trim(&mut kb);
    decrement_lift_trim(&mut kb);
    assert_eq!(get_throttle(&js, &kb), 1001);
    js.set_yaw(2000);
    for _ in 0..100 {
        increment_yaw_trim(&mut kb);
    }
    assert_eq!(get_yaw(&js, &kb), 2047);
    reset_keyboard_values(&mut kb);
    assert_eq!(get_yaw(&js, &kb), 2000);
    assert_eq!(kb.get_yaw_p(), 25);
}

#[test]
fn joystick_mode_request_wins() {
    let mut js = InputState::new(0, 0, 0);
    let mut kb = InputState::new(0, 0, 0);
    set_mode_pressed(&mut kb, DroneMode::Manual);
    js.set_mode_pressed(DroneMode::Panic);
    assert_eq!(get_mode_pressed(&mut js, &mut kb), Some(DroneMode::Panic));
    assert_eq!(get_mode_pressed(&mut js, &mut kb), None);
    set_mode_pressed(&mut kb, DroneMode::Manual);
    assert_eq!(get_mode_pressed(&mut js, &mut kb), Some(DroneMode::Manual));
}

#[test]
fn timer_fires_after_period() {
    let mut t = Timer::new(100);
    assert!(!t.pc(60));
    assert!(!t.pcr(40));
    assert!(t.pcr(1));
    assert_eq!(t.timer, 0);
    assert!(!t.c());
    t.timer = 150;
    assert!(t.cr());
    assert_eq!(t.timer, 0);
}

#[test]
fn attitude_of_identity_quaternion() {
    let one = Q16 { bits: 65536 };
    let zero = Q16 { bits: 0 };
    let a = quadcore::drone::YawPitchRoll::from_quaternion(one, zero, zero, zero).unwrap();
    assert_eq!(a.yaw.bits, 0);
    assert_eq!(a.pitch.bits, 0);
    assert_eq!(a.roll.bits, 0);
}

#[test]
fn attitude_of_yaw_rotation() {
    // 45 degrees about z: w = cos(22.5), z = sin(22.5)
    let w = Q16 { bits: 60547 };
    let z = Q16 { bits: 25080 };
    let zero = Q16 { bits: 0 };
    let a = quadcore::drone::YawPitchRoll::from_quaternion(w, zero, zero, z).unwrap();
    // -pi/4 = -51472
    assert!((a.yaw.bits + 51472).abs() < 300, "yaw = {}", a.yaw.bits);
    assert_eq!(a.roll.bits, 0);
}

#[test]
fn attitude_of_roll_rotation() {
    // 30 degrees about x: w = cos(15), x = sin(15)
    let w = Q16 { bits: 63302 };
    let x = Q16 { bits: 16962 };
    let zero = Q16 { bits: 0 };
    let a = quadcore::drone::YawPitchRoll::from_quaternion(w, x, zero, zero).unwrap();
    // pi/6 = 34315
    assert!((a.roll.bits - 34315).abs() < 300, "roll = {}", a.roll.bits);
}
