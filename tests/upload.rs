use mcumgr_client::{
    check_response, Cli, NmpHdr, NmpOp, Progress, SeqCounter, UploadError, UploadSession,
};

fn cli(mtu: usize) -> Cli {
    Cli {
        device: String::from("/dev/ttyACM0"),
        baudrate: 115200,
        timeout: 1,
        mtu,
        linelength: 128,
        slot: 1,
    }
}

const SHA_123: [u8; 32] = [
    3, 144, 88, 198, 242, 192, 203, 73, 44, 83, 59, 10, 77, 20, 239, 119, 204, 15, 120, 171, 204,
    206, 213, 40, 125, 132, 161, 162, 1, 28, 251, 129,
];

#[test]
fn three_byte_image_in_one_chunk() {
    let mut counter = SeqCounter::with_start(10);
    let mut s = UploadSession::new(vec![1, 2, 3], &cli(1024));
    s.begin_chunk(&mut counter);
    assert_eq!(s.seq_id(), 10);
    let req = s.request();
    assert_eq!(req.image_num, 1);
    assert_eq!(req.off, 0);
    assert_eq!(req.len, Some(3));
    assert_eq!(req.data_sha, Some(SHA_123.to_vec()));
    assert_eq!(req.upgrade, None);
    assert_eq!(req.data, vec![1, 2, 3]);
    assert_eq!(s.after_encoding(120), Ok(true));
    assert_eq!(s.after_response(Some(0), Some(3)), Ok(Progress::Done));
    assert_eq!(s.offset(), 3);
    assert_eq!(s.percent(), 100);
}

#[test]
fn device_error_aborts_first_chunk() {
    let mut counter = SeqCounter::with_start(0);
    let mut s = UploadSession::new(vec![1, 2, 3], &cli(1024));
    s.begin_chunk(&mut counter);
    let _ = s.request();
    assert_eq!(s.after_response(Some(5), Some(3)), Err(UploadError::DeviceError(5)));
    assert_eq!(s.offset(), 0);
}

#[test]
fn offset_resync_follows_device() {
    let image: Vec<u8> = (0..100u8).collect();
    let mut counter = SeqCounter::with_start(0);
    let mut s = UploadSession::new(image, &cli(40));
    s.begin_chunk(&mut counter);
    let req = s.request();
    assert_eq!(req.data.len(), 40);
    assert_eq!(s.after_encoding(40), Ok(true));
    // The device asks for data from 25 on, not from 40.
    assert_eq!(s.after_response(None, Some(25)), Ok(Progress::Continue));
    assert_eq!(s.percent(), 25);
    s.begin_chunk(&mut counter);
    assert_eq!(s.seq_id(), 1);
    let req = s.request();
    assert_eq!(req.off, 25);
    assert_eq!(req.len, None);
    assert_eq!(req.data_sha, None);
    assert_eq!(req.data, (25..65u8).collect::<Vec<u8>>());
}

#[test]
fn stalled_offset_fails() {
    let image: Vec<u8> = (0..100u8).collect();
    let mut counter = SeqCounter::with_start(0);
    let mut s = UploadSession::new(image, &cli(40));
    s.begin_chunk(&mut counter);
    let _ = s.request();
    assert_eq!(s.after_response(Some(0), Some(40)), Ok(Progress::Continue));
    s.begin_chunk(&mut counter);
    let _ = s.request();
    assert_eq!(s.after_response(Some(0), Some(40)), Err(UploadError::OffsetNotAdvanced));
    assert_eq!(s.after_response(Some(0), None), Err(UploadError::OffsetNotAdvanced));
}

#[test]
fn offset_outside_image_fails() {
    let mut counter = SeqCounter::with_start(0);
    let mut s = UploadSession::new(vec![1, 2, 3], &cli(64));
    s.begin_chunk(&mut counter);
    let _ = s.request();
    assert_eq!(s.after_response(None, Some(4)), Err(UploadError::OffsetOutOfRange(4)));
    assert_eq!(s.after_response(None, Some(-1)), Err(UploadError::OffsetOutOfRange(-1)));
}

#[test]
fn mtu_shrink_converges() {
    let image = vec![0u8; 1000];
    let mut counter = SeqCounter::with_start(0);
    let mut s = UploadSession::new(image, &cli(100));
    s.begin_chunk(&mut counter);
    assert_eq!(s.request().data.len(), 100);
    // 80 bytes over: 80 * 3 / 4 + 3 = 63 fewer raw bytes.
    assert_eq!(s.after_encoding(180), Ok(false));
    assert_eq!(s.request().data.len(), 37);
    assert_eq!(s.seq_id(), 0);
    assert_eq!(s.after_encoding(101), Ok(false));
    assert_eq!(s.request().data.len(), 34);
    assert_eq!(s.after_encoding(100), Ok(true));
    // Shrinking always shortens the chunk until it fits or fails.
    let mut tries = 0;
    let mut len = 34;
    loop {
        match s.after_encoding(110) {
            Ok(false) => {
                let now = s.request().data.len();
                assert!(now < len);
                len = now;
            }
            Err(e) => {
                assert_eq!(e, UploadError::MtuTooSmall);
                break;
            }
            Ok(true) => unreachable!(),
        }
        tries += 1;
        assert!(tries <= 35);
    }
    assert_eq!(len, 4);
}

#[test]
fn mtu_too_small() {
    let mut counter = SeqCounter::with_start(0);
    let mut s = UploadSession::new(vec![0u8; 10], &cli(20));
    s.begin_chunk(&mut counter);
    assert_eq!(s.request().data.len(), 10);
    assert_eq!(s.after_encoding(31), Err(UploadError::MtuTooSmall));
}

#[test]
fn response_header_checks() {
    let req = NmpHdr { op: NmpOp::Write, flags: 0, len: 10, group: 1, seq: 4, id: 1 };
    let ok = NmpHdr { op: NmpOp::WriteRsp, flags: 0, len: 6, group: 1, seq: 4, id: 1 };
    assert_eq!(check_response(&req, &ok, NmpOp::WriteRsp), Ok(()));
    let other_seq = NmpHdr { seq: 5, ..ok };
    assert_eq!(check_response(&req, &other_seq, NmpOp::WriteRsp), Err(UploadError::WrongSequence));
    let other_op = NmpHdr { op: NmpOp::ReadRsp, ..ok };
    assert_eq!(check_response(&req, &other_op, NmpOp::WriteRsp), Err(UploadError::WrongResponseType));
    let other_group = NmpHdr { group: 2, ..ok };
    assert_eq!(check_response(&req, &other_group, NmpOp::WriteRsp), Err(UploadError::WrongResponseType));
}
