use quadcore::codec::{Error, START_BYTE};
use quadcore::io::{ComErr, ComT};
use quadcore::protocol::{
    decode_message, encode_message, ControlDT, DataT, DroneMode, HealthDT, Q16, SensorLogDT,
    UpdateP1P2DT, WarningDT,
};

fn samples() -> Vec<DataT> {
    vec![
        DataT::Control(ControlDT { lift: 1, roll: 1024, pitch: 65535, yaw: 0x3C3E }),
        DataT::Mode(DroneMode::RawMode),
        DataT::HealthData(HealthDT { bat: 1100, cpu: 3, pres: 4 }),
        DataT::Warning(WarningDT::SensorNotCalibrated),
        DataT::Message(b"hello drone".to_vec()),
        DataT::KeepAlive,
        DataT::Empty,
        DataT::UpdateP1P2(UpdateP1P2DT { p1: Q16 { bits: -1 }, p2: Q16 { bits: i32::MAX } }),
        DataT::SensorLog(SensorLogDT {
            gyro_x: -1,
            gyro_y: i16::MIN,
            gyro_z: i16::MAX,
            accel_x: 0,
            accel_y: 5,
            accel_z: -300,
            roll: Q16 { bits: 3 },
            pitch: Q16 { bits: -65536 },
            yaw: Q16 { bits: 0x12345678 },
        }),
        DataT::StopLogReporting,
    ]
}

#[test]
fn message_encoding_round_trip() {
    for m in samples() {
        let b = encode_message(&m);
        assert_eq!(decode_message(&b), Some(m));
    }
}

#[test]
fn message_encoding_exact_bytes() {
    let b = encode_message(&DataT::Control(ControlDT { lift: 0x0102, roll: 3, pitch: 0, yaw: 0xFFFF }));
    assert_eq!(b, vec![0, 0x02, 0x01, 3, 0, 0, 0, 0xFF, 0xFF]);
    assert_eq!(encode_message(&DataT::KeepAlive), vec![9]);
    assert_eq!(encode_message(&DataT::Mode(DroneMode::Panic)), vec![1, 2]);
    assert_eq!(encode_message(&DataT::Message(vec![7, 8])), vec![7, 2, 7, 8]);
    let q = encode_message(&DataT::UpdateP1P2(UpdateP1P2DT { p1: Q16 { bits: -2 }, p2: Q16 { bits: 0x01020304 } }));
    assert_eq!(q, vec![16, 0xFE, 0xFF, 0xFF, 0xFF, 4, 3, 2, 1]);
}

#[test]
fn malformed_messages_are_rejected() {
    assert_eq!(decode_message(&vec![]), None);
    assert_eq!(decode_message(&vec![22]), None);
    assert_eq!(decode_message(&vec![9, 0]), None);
    assert_eq!(decode_message(&vec![1, 7]), None);
    assert_eq!(decode_message(&vec![6, 2]), None);
    assert_eq!(decode_message(&vec![0, 1, 2]), None);
    assert_eq!(decode_message(&vec![7, 33]), None);
    assert_eq!(decode_message(&vec![7, 2, 1]), None);
}

#[test]
fn packet_round_trip() {
    for m in samples() {
        let f = m.to_packet(128).unwrap();
        assert_eq!(DataT::from_packet(&f), Ok(m));
    }
}

#[test]
fn packet_too_large_for_capacity() {
    let m = DataT::Message(vec![START_BYTE; 32]);
    assert_eq!(m.to_packet(64), Err(Error::ENOMEM));
    assert!(m.to_packet(128).is_ok());
}

#[test]
fn packet_with_unknown_message_is_des() {
    let f = quadcore::codec::frame(&vec![99, 1, 2], 64).unwrap();
    assert_eq!(DataT::from_packet(&f), Err(Error::Des));
}

fn pipe_with(bytes: &[u8]) -> ComT {
    let mut p = ComT::new(128);
    p.receive_bytes(bytes);
    p
}

#[test]
fn pipe_reads_frames_in_order() {
    let mut bytes: Vec<u8> = vec![1, 2, 3];
    bytes.extend(DataT::KeepAlive.to_packet(64).unwrap());
    bytes.extend(DataT::Mode(DroneMode::Manual).to_packet(64).unwrap());
    let mut p = pipe_with(&bytes);
    assert_eq!(p.read_data(64), Ok(DataT::KeepAlive));
    assert_eq!(p.read_data(64), Ok(DataT::Mode(DroneMode::Manual)));
    assert_eq!(p.read_data(64), Err(ComErr::Empty));
}

#[test]
fn pipe_partial_frame_is_empty_until_complete() {
    let f = DataT::StartLogging.to_packet(64).unwrap();
    let mut p = pipe_with(&f[..f.len() - 1]);
    assert_eq!(p.read_data(64), Err(ComErr::Empty));
    p.receive_bytes(&f[f.len() - 1..]);
    assert_eq!(p.read_data(64), Ok(DataT::StartLogging));
}

#[test]
fn pipe_start_without_end_is_invalid() {
    let mut bytes: Vec<u8> = vec![START_BYTE, 5, 6];
    bytes.extend(DataT::KeepAlive.to_packet(64).unwrap());
    let mut p = pipe_with(&bytes);
    assert_eq!(p.read_data(64), Err(ComErr::InvalPacket));
    assert_eq!(p.read_data(64), Ok(DataT::KeepAlive));
}

#[test]
fn pipe_frame_longer_than_capacity() {
    let f = DataT::Message(vec![1; 20]).to_packet(64).unwrap();
    let mut p = pipe_with(&f);
    assert_eq!(p.read_data(8), Err(ComErr::ENOMEM));
    assert_eq!(p.read_data(64), Err(ComErr::Empty));
}

#[test]
fn pipe_bad_crc_is_uart_error() {
    let mut f = DataT::AckNack(1).to_packet(64).unwrap();
    let i = f.len() - 2;
    f[i] ^= 0x40;
    let mut p = pipe_with(&f);
    assert_eq!(p.read_data(64), Err(ComErr::UartError(Error::CRC)));
}

#[test]
fn pipe_free_space_and_send() {
    let mut p = ComT::new(16);
    assert_eq!(p.free_space(), 16);
    p.receive_bytes(&[1, 2, 3]);
    assert_eq!(p.free_space(), 13);
    let f = p.send_data(&DataT::KeepAlive, 64).unwrap();
    assert_eq!(DataT::from_packet(&f), Ok(DataT::KeepAlive));
    assert_eq!(p.send_data(&DataT::Message(vec![0; 30]), 8), Err(ComErr::UartError(Error::ENOMEM)));
}
