use quadcore::input::{increment_yaw_p, set_mode_pressed, InputState};
use quadcore::logic::Logic;
use quadcore::protocol::{ControlDT, DataT, DroneMode, Q16, UpdateP1P2DT, UpdatePDT};

#[test]
fn host_sends_command_and_keep_alive_periodically() {
    let mut logic = Logic::default();
    let mut js = InputState::new(0, 0, 0);
    let mut kb = InputState::new(25, 6, 57);
    js.set_throttle(300);
    js.set_roll(1024);
    js.set_pitch(1024);
    js.set_yaw(1024);
    assert!(logic.perform_periodic_tasks(1, &mut js, &mut kb).is_empty());
    assert_eq!(
        logic.perform_periodic_tasks(5, &mut js, &mut kb),
        vec![DataT::Control(ControlDT { lift: 300, roll: 1024, pitch: 1024, yaw: 1024 })]
    );
    assert_eq!(
        logic.perform_periodic_tasks(20, &mut js, &mut kb),
        vec![
            DataT::Control(ControlDT { lift: 300, roll: 1024, pitch: 1024, yaw: 1024 }),
            DataT::KeepAlive
        ]
    );
}

#[test]
fn host_sends_requests_once() {
    let mut logic = Logic::default();
    let mut js = InputState::new(0, 0, 0);
    let mut kb = InputState::new(25, 6, 57);
    set_mode_pressed(&mut kb, DroneMode::Manual);
    kb.is_new_mode_request_received = true;
    increment_yaw_p(&mut kb);
    kb.is_pid_updated = true;
    kb.is_full_pid_updated = true;
    kb.data_logging_state = true;
    kb.data_logging_action = DataT::StartLogging;
    let msgs = logic.perform_periodic_tasks(3, &mut js, &mut kb);
    assert_eq!(
        msgs,
        vec![
            DataT::Mode(DroneMode::Manual),
            DataT::UpdateP(UpdatePDT { p: Q16 { bits: 26 << 16 } }),
            DataT::StartLogging,
            DataT::UpdateP1P2(UpdateP1P2DT { p1: Q16 { bits: 6 << 16 }, p2: Q16 { bits: 57 << 16 } }),
        ]
    );
    assert!(logic.perform_periodic_tasks(3, &mut js, &mut kb).is_empty());
}
