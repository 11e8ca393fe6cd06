use quadcore::codec::{frame, unframe, Error, END_BYTE, ESCAPE_BYTE, MASK, START_BYTE};

#[test]
fn frame_and_unframe() {
    let data: Vec<u8> = vec![0, 1, 'a' as u8, 'b' as u8];
    let reference = data.clone();

    assert_eq!(unframe(&frame(&data, 64).unwrap()).unwrap(), reference);
}

#[test]
fn frame_and_unframe_escape_bytes_only() {
    let data: Vec<u8> = vec![START_BYTE, END_BYTE, ESCAPE_BYTE, MASK];

    assert_eq!(unframe(&frame(&data, 64).unwrap()).unwrap(), data);
}

#[test]
fn unframe_bad_data() {
    let data: Vec<u8> = vec![100, 22, 30, 30, 30, 30, 30, 20];
    assert_eq!(unframe(&data).err().unwrap(), Error::Des);
}

#[test]
// We have to make sure that none of the tokens become any of the other tokens when they are masked in the protocol.
fn token_exclusivity() {
    assert_ne!(ESCAPE_BYTE ^ MASK, START_BYTE);
    assert_ne!(ESCAPE_BYTE ^ MASK, END_BYTE);
    assert_ne!(START_BYTE ^ MASK, ESCAPE_BYTE);
    assert_ne!(START_BYTE ^ MASK, END_BYTE);
    assert_ne!(END_BYTE ^ MASK, START_BYTE);
    assert_ne!(END_BYTE ^ MASK, ESCAPE_BYTE);
}

fn payloads() -> Vec<Vec<u8>> {
    let mut v: Vec<Vec<u8>> = vec![
        vec![],
        vec![START_BYTE],
        vec![END_BYTE, END_BYTE],
        vec![ESCAPE_BYTE, 0x54, 0x34, 0x36],
        (0..=255u8).take(59).collect(),
    ];
    v.push((0..200u16).map(|i| (i * 7 % 256) as u8).collect());
    v
}

#[test]
fn round_trip_various_payloads() {
    for p in payloads() {
        let f = frame(&p, 1024).unwrap();
        assert_eq!(unframe(&f).unwrap(), p);
    }
}

#[test]
fn frame_shape_delimiters_and_escapes() {
    for p in payloads() {
        let f = frame(&p, 1024).unwrap();
        assert_eq!(f[0], START_BYTE);
        assert_eq!(f[f.len() - 1], END_BYTE);
        let mid = &f[1..f.len() - 1];
        let mut i = 0;
        while i < mid.len() {
            assert_ne!(mid[i], START_BYTE);
            assert_ne!(mid[i], END_BYTE);
            if mid[i] == ESCAPE_BYTE {
                assert!(i + 1 < mid.len());
                let b = mid[i + 1] ^ MASK;
                assert!(b == START_BYTE || b == END_BYTE || b == ESCAPE_BYTE);
                i += 2;
            } else {
                i += 1;
            }
        }
    }
}

#[test]
fn frame_layout_exact() {
    // crc, length 2, payload; 0x3C is escaped
    let f = frame(&vec![0x01, 0x3C], 64).unwrap();
    assert_eq!(f[0], START_BYTE);
    assert_eq!(f[2], 2);
    assert_eq!(&f[3..], &[0x01, ESCAPE_BYTE, 0x34, END_BYTE]);
    assert!(f[1] != START_BYTE && f[1] != END_BYTE && f[1] != ESCAPE_BYTE);
}

#[test]
fn long_payload_has_two_byte_length() {
    let p: Vec<u8> = vec![0x11; 300];
    let f = frame(&p, 1024).unwrap();
    assert_eq!(f.len(), 2 + 1 + 2 + 300);
    assert_eq!(f[2], (300 % 128 + 128) as u8);
    assert_eq!(f[3], (300 / 128) as u8);
    assert_eq!(unframe(&f).unwrap(), p);
}

#[test]
fn frame_too_long_for_capacity() {
    let p: Vec<u8> = vec![1, 2, 3, 4];
    // START, crc, len, 4 bytes, END = 8
    assert!(frame(&p, 9).is_ok());
    assert_eq!(frame(&p, 6), Err(Error::ENOMEM));
    let specials: Vec<u8> = vec![START_BYTE; 10];
    assert_eq!(frame(&specials, 20), Err(Error::ENOMEM));
    assert!(frame(&specials, 40).is_ok());
}

#[test]
fn corrupted_crc_is_detected() {
    let p: Vec<u8> = vec![9, 8, 7, 6, 5];
    let mut f = frame(&p, 64).unwrap();
    // the CRC byte sits right after START unless it was escaped
    assert_ne!(f[1], ESCAPE_BYTE);
    f[1] ^= 0x01;
    if f[1] == START_BYTE || f[1] == END_BYTE || f[1] == ESCAPE_BYTE {
        f[1] ^= 0x03;
    }
    assert_eq!(unframe(&f), Err(Error::CRC));
}

#[test]
fn single_bit_flips_are_rejected() {
    let p: Vec<u8> = vec![0x10, 0x20, 0x30, 0x40, 0x50, 0x60];
    let f = frame(&p, 64).unwrap();
    for i in 1..f.len() - 1 {
        for bit in 0..8 {
            let mut g = f.clone();
            g[i] ^= 1 << bit;
            assert_ne!(unframe(&g), Ok(p.clone()));
        }
    }
}

#[test]
fn empty_and_short_frames_are_malformed() {
    assert_eq!(unframe(&vec![]), Err(Error::Des));
    assert_eq!(unframe(&vec![START_BYTE]), Err(Error::Des));
    assert_eq!(unframe(&vec![START_BYTE, END_BYTE]), Err(Error::Des));
}

#[test]
fn payload_longer_than_length_prefix_is_rejected() {
    let p: Vec<u8> = vec![0; 16384];
    assert_eq!(frame(&p, 100_000), Err(Error::ENOMEM));
    let q: Vec<u8> = vec![0; 16383];
    assert_eq!(unframe(&frame(&q, 100_000).unwrap()).unwrap(), q);
}
