use quadcore::drone::{DroneState, FlashError, YawPitchRoll, CalibrationSample, ADDRESS_OF_LOG_REPORT_EOF};
use quadcore::protocol::{ControlDT, DataT, DroneMode, Q16, WarningDT};
use quadcore::state_machine::{
    are_motors_zero, decrease_motors, is_control_neutral, SafeMode, TickInput,
};

fn input() -> TickInput {
    let z = Q16 { bits: 0 };
    TickInput {
        battery: 2000,
        ypr: YawPitchRoll { yaw: z, pitch: z, roll: z },
        accel: [0, 0, 16384],
        gyro: [0, 0, 0],
        eof: Err(FlashError::SpiError),
        report_record: Err(FlashError::SpiError),
        calibration: vec![],
    }
}

fn send(state: &mut DroneState, m: DataT) {
    let f = m.to_packet(64).unwrap();
    state.pipe.receive_bytes(&f);
}

/// Splits the outgoing bytes into the messages they carry.
fn sent_messages(state: &DroneState) -> Vec<DataT> {
    let mut p = quadcore::io::ComT::new(4096);
    p.receive_bytes(&state.outbox);
    let mut out = Vec::new();
    while let Ok(m) = p.read_data(64) {
        out.push(m);
    }
    out
}

fn run_tick(state: &mut DroneState, i: u32, inp: &TickInput) {
    state.tick_begin(inp.accel, inp.gyro);
    state.flash_writes.clear();
    state.tick(i, 10, inp);
}

fn neutral() -> ControlDT {
    ControlDT { lift: 0, roll: 1024, pitch: 1024, yaw: 1024 }
}

#[test]
fn starts_safe_with_motors_off() {
    let s = DroneState::new();
    assert_eq!(s.mode, DroneMode::Safe);
    assert_eq!(s.get_motors(), [0, 0, 0, 0]);
    assert_eq!(s.get_cc(), ControlDT { lift: 2048, roll: 2048, pitch: 2048, yaw: 2048 });
}

#[test]
fn neutral_controls() {
    assert!(is_control_neutral(neutral()));
    assert!(is_control_neutral(ControlDT { lift: 0, roll: 974, pitch: 1074, yaw: 1000 }));
    assert!(!is_control_neutral(ControlDT { lift: 1, roll: 1024, pitch: 1024, yaw: 1024 }));
    assert!(!is_control_neutral(ControlDT { lift: 0, roll: 973, pitch: 1024, yaw: 1024 }));
    assert!(!is_control_neutral(ControlDT { lift: 0, roll: 1024, pitch: 1075, yaw: 1024 }));
    assert!(!is_control_neutral(ControlDT { lift: 2048, roll: 2048, pitch: 2048, yaw: 2048 }));
}

#[test]
fn mode_change_refused_without_neutral_controls() {
    let mut s = DroneState::new();
    send(&mut s, DataT::Control(ControlDT { lift: 300, roll: 1024, pitch: 1024, yaw: 1024 }));
    send(&mut s, DataT::Mode(DroneMode::Manual));
    run_tick(&mut s, 1, &input());
    assert_eq!(s.mode, DroneMode::Safe);
    let msgs = sent_messages(&s);
    assert!(msgs.contains(&DataT::Warning(WarningDT::ControlNotNeutral)));
}

#[test]
fn sensor_modes_need_calibration() {
    let mut s = DroneState::new();
    send(&mut s, DataT::Control(neutral()));
    send(&mut s, DataT::Mode(DroneMode::YawControl));
    run_tick(&mut s, 1, &input());
    assert_eq!(s.mode, DroneMode::Safe);
    assert!(sent_messages(&s).contains(&DataT::Warning(WarningDT::SensorNotCalibrated)));
}

#[test]
fn handler_warns_on_sensor_mode_without_calibration() {
    let mut s = DroneState::new();
    s.set_cc(neutral());
    let r = SafeMode::handle_message(&mut s, DataT::Mode(DroneMode::RawMode), Err(FlashError::SpiError));
    assert_eq!(r, (DroneMode::Safe, false));
    assert_eq!(sent_messages(&s), vec![DataT::Warning(WarningDT::SensorNotCalibrated)]);
}

#[test]
fn manual_mode_with_neutral_controls() {
    let mut s = DroneState::new();
    send(&mut s, DataT::Control(neutral()));
    send(&mut s, DataT::Mode(DroneMode::Manual));
    run_tick(&mut s, 1, &input());
    assert_eq!(s.mode, DroneMode::Manual);
    assert!(sent_messages(&s).contains(&DataT::Mode(DroneMode::Manual)));
}

#[test]
fn manual_roll_left_scenario() {
    let mut s = DroneState::new();
    send(&mut s, DataT::Control(neutral()));
    send(&mut s, DataT::Mode(DroneMode::Manual));
    run_tick(&mut s, 1, &input());
    send(&mut s, DataT::Control(ControlDT { lift: 1024, roll: 0, pitch: 1024, yaw: 1024 }));
    send(&mut s, DataT::KeepAlive);
    run_tick(&mut s, 2, &input());
    assert_eq!(s.mode, DroneMode::Manual);
    let m = s.get_motors();
    assert!(m[1] > m[3]);
    assert_eq!(m[0], m[2]);
}

#[test]
fn keep_alive_frame_resets_counter() {
    let mut s = DroneState::new();
    for i in 1..50 {
        run_tick(&mut s, i, &input());
    }
    assert_eq!(s.ticks_since_last_ka, 49);
    let f = DataT::KeepAlive.to_packet(64).unwrap();
    assert_eq!(f[0], 0x3C);
    assert_eq!(f[f.len() - 1], 0x3E);
    assert_eq!(quadcore::codec::unframe(&f).unwrap(), vec![9]);
    s.pipe.receive_bytes(&f);
    run_tick(&mut s, 50, &input());
    assert_eq!(s.ticks_since_last_ka, 0);
    assert_eq!(s.mode, DroneMode::Safe);
}

#[test]
fn lost_link_forces_panic() {
    let mut s = DroneState::new();
    send(&mut s, DataT::Control(neutral()));
    send(&mut s, DataT::Mode(DroneMode::Manual));
    run_tick(&mut s, 1, &input());
    assert_eq!(s.mode, DroneMode::Manual);
    s.got_keep_alive();
    for i in 0..120 {
        s.tick_begin([0, 0, 0], [0, 0, 0]);
        assert_eq!(s.mode, DroneMode::Manual, "tick {}", i);
    }
    s.tick_begin([0, 0, 0], [0, 0, 0]);
    assert_eq!(s.mode, DroneMode::Panic);
}

#[test]
fn lost_link_keeps_safe() {
    let mut s = DroneState::new();
    for _ in 0..200 {
        s.tick_begin([0, 0, 0], [0, 0, 0]);
    }
    assert_eq!(s.mode, DroneMode::Safe);
}

#[test]
fn decrease_motors_saturates() {
    assert_eq!(decrease_motors([800, 1, 0, 3], 2), [798, 0, 0, 1]);
    assert!(are_motors_zero([0, 0, 0, 0]));
    assert!(!are_motors_zero([0, 0, 1, 0]));
}

#[test]
fn panic_descends_to_safe_within_400_ticks() {
    let mut s = DroneState::new();
    s.mode = DroneMode::Panic;
    s.set_motors([800, 800, 800, 800]);
    let inp = input();
    let mut ticks = 0;
    while s.mode == DroneMode::Panic {
        let before = s.get_motors();
        run_tick(&mut s, ticks + 1, &inp);
        ticks += 1;
        let after = s.get_motors();
        for k in 0..4 {
            assert_eq!(after[k], before[k].saturating_sub(2));
        }
        assert!(ticks <= 400);
    }
    assert_eq!(ticks, 400);
    assert_eq!(s.mode, DroneMode::Safe);
    assert_eq!(s.get_motors(), [0, 0, 0, 0]);
}

#[test]
fn panic_request_from_flying_mode() {
    let mut s = DroneState::new();
    send(&mut s, DataT::Control(neutral()));
    send(&mut s, DataT::Mode(DroneMode::Manual));
    run_tick(&mut s, 1, &input());
    send(&mut s, DataT::Control(ControlDT { lift: 1024, roll: 1024, pitch: 1024, yaw: 1024 }));
    run_tick(&mut s, 2, &input());
    assert_eq!(s.get_motors(), [528, 528, 528, 528]);
    send(&mut s, DataT::Mode(DroneMode::Safe));
    run_tick(&mut s, 3, &input());
    assert_eq!(s.mode, DroneMode::Panic);
    assert_eq!(s.get_motors(), [526, 526, 526, 526]);
}

#[test]
fn low_battery_in_manual_panics() {
    let mut s = DroneState::new();
    send(&mut s, DataT::Control(neutral()));
    send(&mut s, DataT::Mode(DroneMode::Manual));
    run_tick(&mut s, 1, &input());
    let mut inp = input();
    inp.battery = 1000;
    s.set_motors([100, 100, 100, 100]);
    run_tick(&mut s, 2, &inp);
    assert_eq!(s.mode, DroneMode::Panic);
}

#[test]
fn calibrate_then_panic_then_safe() {
    let mut s = DroneState::new();
    send(&mut s, DataT::Control(neutral()));
    send(&mut s, DataT::Mode(DroneMode::Calibrate));
    let mut inp = input();
    let q = |b: i32| Q16 { bits: b };
    inp.calibration = vec![
        CalibrationSample { ypr: YawPitchRoll { yaw: q(10), pitch: q(-20), roll: q(30) }, accel: [1, 2, 3], gyro: [4, 5, 6] },
        CalibrationSample { ypr: YawPitchRoll { yaw: q(20), pitch: q(-41), roll: q(31) }, accel: [3, 2, -3], gyro: [4, 6, -7] },
    ];
    run_tick(&mut s, 1, &inp);
    assert!(s.calibrated_data.is_calibrated());
    assert_eq!(s.calibrated_data.yaw_offset, q(15));
    assert_eq!(s.calibrated_data.pitch_offset, q(-30));
    assert_eq!(s.calibrated_data.roll_offset, q(30));
    assert_eq!(s.calibrated_data.accel_x_offset, 2);
    assert_eq!(s.calibrated_data.accel_z_offset, 0);
    assert_eq!(s.calibrated_data.gyro_y_offset, 5);
    assert_eq!(s.calibrated_data.gyro_z_offset, 0);
    // motors were off, so Panic hands over to Safe in the same tick
    assert_eq!(s.mode, DroneMode::Safe);
    let msgs = sent_messages(&s);
    assert!(msgs.contains(&DataT::Mode(DroneMode::Calibrate)));
    assert!(msgs.contains(&DataT::Mode(DroneMode::Panic)));
    assert!(msgs.contains(&DataT::Mode(DroneMode::Safe)));
}

#[test]
fn logging_writes_end_pointer() {
    let mut s = DroneState::new();
    let inp = input();
    send(&mut s, DataT::StartLogging);
    run_tick(&mut s, 1, &inp);
    assert!(s.log_on);
    let mut records = 0u32;
    for i in 2..12 {
        s.tick_begin(inp.accel, inp.gyro);
        let writes: Vec<_> = s.flash_writes.drain(..).collect();
        for w in writes {
            assert_eq!(w.bytes.len(), 18);
            s.flash_write_done(w.address, Ok(()));
            records += 1;
        }
        if i == 11 {
            send(&mut s, DataT::StopLogging);
        }
        s.tick(i, 10, &inp);
    }
    assert!(!s.log_on);
    assert_eq!(records, 10);
    let eof = s.flash_writes.iter().find(|w| w.address == ADDRESS_OF_LOG_REPORT_EOF).unwrap();
    let v = 4 + 18 * records;
    assert_eq!(eof.bytes, v.to_be_bytes().to_vec());
}

#[test]
fn logging_stops_when_flash_is_full() {
    let mut s = DroneState::new();
    s.start_logging();
    s.tick_begin([0, 0, 0], [0, 0, 0]);
    let w = s.flash_writes.pop().unwrap();
    s.flash_write_done(w.address, Err(FlashError::OutOfSpace));
    assert!(!s.log_on);
    assert_eq!(s.flash_writes.len(), 1);
    assert_eq!(s.flash_writes[0].address, 0);
    assert_eq!(s.flash_writes[0].bytes, vec![0, 0, 0, 4]);
}

#[test]
fn spi_error_drops_record() {
    let mut s = DroneState::new();
    s.start_logging();
    s.tick_begin([0, 0, 0], [0, 0, 0]);
    let w = s.flash_writes.pop().unwrap();
    s.flash_write_done(w.address, Err(FlashError::SpiError));
    assert!(s.log_on);
    assert_eq!(s.flash_iterator, 4);
}

#[test]
fn log_report_sends_records_then_stops() {
    let mut s = DroneState::new();
    s.log_report_start(Ok([0, 0, 0, 22]));
    assert!(s.log_report_on);
    assert_eq!(s.log_report_eof, 22);
    let mut rec = [0u8; 18];
    rec[0] = 0xFF;
    rec[1] = 0xFE;
    rec[12] = 0x27;
    rec[13] = 0x10;
    s.outbox.clear();
    s.log_report_if_enabled(2, Ok(rec));
    let msgs = sent_messages(&s);
    match &msgs[0] {
        DataT::SensorLog(l) => {
            assert_eq!(l.gyro_x, -2);
            assert_eq!(l.pitch, Q16 { bits: 65536 });
        }
        other => panic!("unexpected {:?}", other),
    }
    s.log_report_if_enabled(4, Ok(rec));
    assert!(!s.log_report_on);
    assert!(sent_messages(&s).contains(&DataT::StopLogReporting));
}

#[test]
fn fresh_flash_reports_nothing() {
    let mut s = DroneState::new();
    s.log_report_start(Ok([0xFF, 0xFF, 0xFF, 0xFF]));
    assert_eq!(s.log_report_eof, 4);
    s.log_report_if_enabled(2, Err(FlashError::SpiError));
    assert!(!s.log_report_on);
}

#[test]
fn gain_updates_are_echoed() {
    let mut s = DroneState::new();
    s.calibrated_data.is_calibrated = true;
    send(&mut s, DataT::Control(neutral()));
    send(&mut s, DataT::Mode(DroneMode::YawControl));
    run_tick(&mut s, 1, &input());
    assert_eq!(s.mode, DroneMode::YawControl);
    s.outbox.clear();
    let p = Q16 { bits: 7 << 16 };
    send(&mut s, DataT::UpdateP(quadcore::protocol::UpdatePDT { p }));
    run_tick(&mut s, 3, &input());
    assert_eq!(s.p, p);
    assert!(sent_messages(&s).contains(&DataT::UpdateP(quadcore::protocol::UpdatePDT { p })));
}

#[test]
fn deadline_miss_is_reported() {
    let mut s = DroneState::new();
    let inp = input();
    s.tick_begin(inp.accel, inp.gyro);
    s.tick(1, 25, &inp);
    let msgs = sent_messages(&s);
    assert!(msgs.contains(&DataT::Message(b"Exceeding deadline!".to_vec())));
}

#[test]
fn bad_frame_is_reported_and_skipped() {
    let mut s = DroneState::new();
    let mut f = DataT::KeepAlive.to_packet(64).unwrap();
    let i = f.len() - 2;
    f[i] ^= 0x01;
    s.pipe.receive_bytes(&f);
    assert_eq!(s.read_data(), DataT::Empty);
    assert_eq!(sent_messages(&s), vec![DataT::Message(b"E r CRC".to_vec())]);
}

#[test]
fn periodic_telemetry() {
    let mut s = DroneState::new();
    let inp = input();
    s.tick_begin(inp.accel, inp.gyro);
    s.tick(200, 10, &inp);
    let msgs = sent_messages(&s);
    assert!(msgs.contains(&DataT::KeepAlive));
    assert!(msgs.contains(&DataT::HealthData(quadcore::protocol::HealthDT { bat: 2000, cpu: 0, pres: 0 })));
    assert!(msgs.contains(&DataT::MotorsState(quadcore::protocol::MotorsDT { ae1: 0, ae2: 0, ae3: 0, ae4: 0 })));
}

#[test]
fn calibrate_waits_for_readings() {
    let mut s = DroneState::new();
    send(&mut s, DataT::Control(neutral()));
    send(&mut s, DataT::Mode(DroneMode::Calibrate));
    run_tick(&mut s, 1, &input());
    assert_eq!(s.mode, DroneMode::Calibrate);
    assert!(!s.calibrated_data.is_calibrated());
}

#[test]
fn raw_mode_sets_debug_message() {
    let mut s = DroneState::new();
    s.calibrated_data.is_calibrated = true;
    send(&mut s, DataT::Control(neutral()));
    send(&mut s, DataT::Mode(DroneMode::RawMode));
    run_tick(&mut s, 1, &input());
    assert_eq!(s.mode, DroneMode::RawMode);
    match &s.debug_info {
        DataT::Message(t) => {
            assert!(t.starts_with(b"dmp:"));
            assert!(t.len() <= 32);
            let text = String::from_utf8(t.clone()).unwrap();
            assert!(text.contains(", raw:"), "{}", text);
        }
        other => panic!("unexpected {:?}", other),
    }
}
