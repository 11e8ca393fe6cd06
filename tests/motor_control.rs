use quadcore::motor_control::{motor_mapping, MappingError};

#[test]
fn test_zero_state() {
    let zero_state: [u16; 4] = [0, 1024, 1024, 1024];
    let expected: [u16; 4] = [0, 0, 0, 0];
    assert_eq!(motor_mapping(zero_state).unwrap(), expected);
}

#[test]
fn test_hover() {
    let zero_state: [u16; 4] = [2047, 1024, 1024, 1024];
    let result = motor_mapping(zero_state).unwrap();
    assert_eq!(result[0], result[1]);
    assert_eq!(result[1], result[2]);
    assert_eq!(result[2], result[3]);
}

#[test]
fn test_roll_left() {
    let state: [u16; 4] = [1024, 0, 1024, 1024];
    let mapping: [u16; 4] = motor_mapping(state).unwrap();
    assert!(mapping[1] > mapping[3]);
    assert_eq!(mapping[0], mapping[2]);
}

#[test]
fn test_roll_right() {
    let state: [u16; 4] = [1024, 2047, 1024, 1024];
    let mapping: [u16; 4] = motor_mapping(state).unwrap();
    assert!(mapping[1] < mapping[3]);
    assert_eq!(mapping[0], mapping[2]);
}

#[test]
fn test_pitch_forward() {
    let state: [u16; 4] = [1024, 1024, 0, 1024];
    let mapping: [u16; 4] = motor_mapping(state).unwrap();
    assert!(mapping[0] < mapping[2]);
    assert_eq!(mapping[1], mapping[3]);
}

#[test]
fn test_pitch_backward() {
    let state: [u16; 4] = [1024, 1024, 2047, 1024];
    let mapping: [u16; 4] = motor_mapping(state).unwrap();
    assert!(mapping[0] > mapping[2]);
    assert_eq!(mapping[1], mapping[3]);
}

#[test]
fn test_turn_diag_fl() {
    let state: [u16; 4] = [1024, 0, 0, 1024];
    let mapping: [u16; 4] = motor_mapping(state).unwrap();
    assert!(mapping[0] < mapping[2]);
    assert!(mapping[1] > mapping[3]);
}

#[test]
fn test_turn_diag_fr() {
    let state: [u16; 4] = [1024, 2047, 0, 1024];
    let mapping: [u16; 4] = motor_mapping(state).unwrap();
    assert!(mapping[0] < mapping[2]);
    assert!(mapping[1] < mapping[3]);
}

#[test]
fn test_turn_diag_br() {
    let state: [u16; 4] = [1024, 2047, 2047, 1024];
    let mapping: [u16; 4] = motor_mapping(state).unwrap();
    assert!(mapping[0] > mapping[2]);
    assert!(mapping[1] < mapping[3]);
}

#[test]
fn test_turn_diag_bl() {
    let state: [u16; 4] = [1024, 0, 2047, 1024];
    let mapping: [u16; 4] = motor_mapping(state).unwrap();
    assert!(mapping[0] > mapping[2]);
    assert!(mapping[1] > mapping[3]);
}

#[test]
fn test_zero_thrust() {
    let expected: [u16; 4] = [0, 0, 0, 0];

    let mut random_state: [u16; 4] = [0, 0, 0, 0];
    assert_eq!(motor_mapping(random_state).unwrap(), expected);

    random_state = [0, 2047, 0, 0];
    assert_eq!(motor_mapping(random_state).unwrap(), expected);

    random_state = [0, 2047, 2047, 0];
    assert_eq!(motor_mapping(random_state).unwrap(), expected);

    random_state = [0, 0, 2047, 0];
    assert_eq!(motor_mapping(random_state).unwrap(), expected);

    random_state = [0, 2047, 1000, 1000];
    assert_eq!(motor_mapping(random_state).unwrap(), expected);
}

#[test]
fn test_input_out_of_bounds() {
    let expected = MappingError::InputOutOfBounds;
    let random_state: [u16; 4] = [2048, 0, 0, 0];
    assert_eq!(motor_mapping(random_state).err().unwrap(), expected);
}

#[test]
fn out_of_bounds_on_every_channel() {
    for ch in 0..4 {
        let mut input: [u16; 4] = [1024, 1024, 1024, 1024];
        input[ch] = 2048;
        assert_eq!(motor_mapping(input), Err(MappingError::InputOutOfBounds));
        input[ch] = u16::MAX;
        assert_eq!(motor_mapping(input), Err(MappingError::InputOutOfBounds));
    }
}

#[test]
fn dead_zone_up_to_min_thrust() {
    assert_eq!(motor_mapping([10, 0, 2047, 0]).unwrap(), [0, 0, 0, 0]);
    assert_ne!(motor_mapping([11, 1024, 1024, 1024]).unwrap(), [0, 0, 0, 0]);
}

#[test]
fn throttle_curve_exact_values() {
    // sqrt(1024) = 32, 12 * 32 + 144 = 528
    assert_eq!(motor_mapping([1024, 1024, 1024, 1024]).unwrap(), [528, 528, 528, 528]);
    // 12 * sqrt(2047) + 144 = 686.9, capped at 600
    assert_eq!(motor_mapping([2047, 1024, 1024, 1024]).unwrap(), [600, 600, 600, 600]);
    // sqrt(100) = 10, 12 * 10 + 144 = 264
    assert_eq!(motor_mapping([100, 1024, 1024, 1024]).unwrap(), [264, 264, 264, 264]);
}

#[test]
fn roll_left_exact_values() {
    // throttle 528, until stall 348, roll modifier -200 capped to 400 * 348 / 1000 = 139
    assert_eq!(motor_mapping([1024, 0, 1024, 1024]).unwrap(), [528, 667, 528, 389]);
}

#[test]
fn pitch_forward_exact_values() {
    assert_eq!(motor_mapping([1024, 1024, 0, 1024]).unwrap(), [389, 528, 667, 528]);
}

#[test]
fn yaw_exact_values() {
    // yaw modifier -300 capped to 600 * 348 / 1000 = 208
    assert_eq!(motor_mapping([1024, 1024, 1024, 0]).unwrap(), [320, 736, 320, 736]);
}

#[test]
fn outputs_stay_within_motor_range() {
    for lift in [11u16, 500, 1024, 2047] {
        for r in [0u16, 1024, 2047] {
            for p in [0u16, 1024, 2047] {
                for y in [0u16, 1024, 2047] {
                    let out = motor_mapping([lift, r, p, y]).unwrap();
                    for v in out {
                        assert!(v <= 800);
                    }
                }
            }
        }
    }
}
