use std::collections::HashSet;

use mcumgr_client::{
    decode_frame, decode_response, encode_request, next_seq_id, Cli, FrameError, NmpGroup,
    NmpHdr, NmpIdImage, NmpOp, SeqCounter,
};

fn cli(linelength: usize, mtu: usize) -> Cli {
    Cli {
        device: String::from("/dev/ttyACM0"),
        baudrate: 115200,
        timeout: 1,
        mtu,
        linelength,
        slot: 0,
    }
}

// Text carried by the lines of a wire frame, markers and newlines removed.
fn strip_lines(wire: &[u8]) -> Vec<u8> {
    let mut text = Vec::new();
    for line in wire.split(|b| *b == b'\n') {
        if line.len() >= 2 {
            text.extend_from_slice(&line[2..]);
        }
    }
    text
}

#[test]
fn test_next_seq_id() {
    let mut counter = SeqCounter::new();
    let mut ids = HashSet::new();
    let initial_id = next_seq_id(&mut counter);
    ids.insert(initial_id);

    for _ in 0..u8::MAX {
        let id = next_seq_id(&mut counter);
        assert!(ids.insert(id), "Duplicate ID: {}", id);
    }

    // Check wrapping behavior
    let wrapped_id = next_seq_id(&mut counter);
    assert_eq!(wrapped_id, initial_id, "Wrapped ID does not match initial ID");
}

#[test]
fn seq_id_wraps_from_255() {
    let mut counter = SeqCounter::with_start(255);
    assert_eq!(next_seq_id(&mut counter), 255);
    assert_eq!(next_seq_id(&mut counter), 0);
    assert_eq!(next_seq_id(&mut counter), 1);
}

#[test]
fn header_serializes_big_endian() {
    let h = NmpHdr { op: NmpOp::Write, flags: 0, len: 0x0102, group: 0x0304, seq: 7, id: 1 };
    assert_eq!(h.serialize(), vec![2, 0, 1, 2, 3, 4, 7, 1]);
    assert_eq!(NmpHdr::deserialize(&h.serialize()), Some(h));
    assert_eq!(NmpHdr::deserialize(&vec![4, 0, 0, 0, 0, 1, 0, 0]), None);
    assert_eq!(NmpHdr::deserialize(&vec![0, 0, 0]), None);
}

#[test]
fn encode_request_exact_bytes() {
    let (wire, h) =
        encode_request(&cli(128, 256), NmpOp::Read, NmpGroup::Image, NmpIdImage::State, &vec![0xa0], 0x42)
            .unwrap();
    assert_eq!(h, NmpHdr { op: NmpOp::Read, flags: 0, len: 1, group: 1, seq: 0x42, id: 0 });
    let mut expected = vec![6u8, 9];
    expected.extend_from_slice(b"AAsAAAABAAFCAKD1Mw==");
    expected.push(b'\n');
    assert_eq!(wire, expected);
}

#[test]
fn encode_request_splits_lines() {
    // 20 characters of base64 with 8 per line: 8 + 8 + 4.
    let (wire, _) =
        encode_request(&cli(12, 256), NmpOp::Read, NmpGroup::Image, NmpIdImage::State, &vec![0xa0], 0x42)
            .unwrap();
    let mut expected = Vec::new();
    expected.extend_from_slice(&[6, 9]);
    expected.extend_from_slice(b"AAsAAAAB\n");
    expected.extend_from_slice(&[4, 20]);
    expected.extend_from_slice(b"AAFCAKD1\n");
    expected.extend_from_slice(&[4, 20]);
    expected.extend_from_slice(b"Mw==\n");
    assert_eq!(wire, expected);
}

#[test]
fn encode_request_too_long() {
    let body = vec![0u8; 65526];
    let r = encode_request(&cli(128, 256), NmpOp::Write, NmpGroup::Image, NmpIdImage::Upload, &body, 1);
    assert_eq!(r.err(), Some(FrameError::TooLong));
    let body = vec![0u8; 65525];
    let r = encode_request(&cli(128, 256), NmpOp::Write, NmpGroup::Image, NmpIdImage::Upload, &body, 1);
    assert!(r.is_ok());
}

#[test]
fn frame_round_trip() {
    let body: Vec<u8> = (0..200u16).map(|i| (i * 7) as u8).collect();
    let (wire, h) =
        encode_request(&cli(40, 4096), NmpOp::Write, NmpGroup::Image, NmpIdImage::Upload, &body, 9)
            .unwrap();
    let (h2, p2) = decode_response(&strip_lines(&wire)).unwrap();
    assert_eq!(h2, h);
    assert_eq!(p2, body);
}

#[test]
fn frame_round_trip_empty_payload() {
    let (wire, h) =
        encode_request(&cli(128, 256), NmpOp::Read, NmpGroup::Image, NmpIdImage::State, &vec![], 0)
            .unwrap();
    let (h2, p2) = decode_response(&strip_lines(&wire)).unwrap();
    assert_eq!(h2, h);
    assert!(p2.is_empty());
}

#[test]
fn checksum_detects_flipped_bits() {
    let frame: Vec<u8> = vec![0, 11, 0, 0, 0, 1, 0, 1, 66, 0, 160, 245, 51];
    assert!(decode_frame(&frame).is_ok());
    for i in 2..11 {
        for bit in 0..8 {
            let mut bad = frame.clone();
            bad[i] ^= 1 << bit;
            assert_eq!(decode_frame(&bad).err(), Some(FrameError::ChecksumMismatch));
        }
    }
}

#[test]
fn length_prefix_checked() {
    let frame: Vec<u8> = vec![0, 11, 0, 0, 0, 1, 0, 1, 66, 0, 160, 245, 51];
    for v in [0u16, 10, 12, 13, 0x010b, 0xffff] {
        let mut bad = frame.clone();
        bad[0] = (v >> 8) as u8;
        bad[1] = v as u8;
        assert_eq!(decode_frame(&bad).err(), Some(FrameError::LengthMismatch));
    }
}

#[test]
fn decode_errors() {
    assert_eq!(decode_response(&b"!!!!".to_vec()).err(), Some(FrameError::BadEncoding));
    assert_eq!(decode_frame(&vec![0]).err(), Some(FrameError::Short));
    assert_eq!(decode_frame(&vec![0, 2, 1, 2]).err(), Some(FrameError::Short));
    // Valid length and checksum, but operation 9 does not exist.
    assert_eq!(decode_response(&b"AAoJAAAAAAEAAG45".to_vec()).err(), Some(FrameError::BadHeader));
}
