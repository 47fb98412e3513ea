use gtm_hub::frame::{frame_len, read_frame, write_frame, Arrived, MAX_FRAME};

#[test]
fn roundtrip() {
    let stream = write_frame(&br#"{"jsonrpc":"2.0"}"#.to_vec()).ok().unwrap();
    assert_eq!(stream[..4], [0, 0, 0, 17]);
    match read_frame(&stream) {
        Arrived::Message { data, used } => {
            assert_eq!(data, br#"{"jsonrpc":"2.0"}"#);
            assert_eq!(used, stream.len());
        }
        _ => panic!("expected a frame"),
    }
}

#[test]
fn rejects_oversize() {
    let huge = MAX_FRAME + 1;
    assert!(matches!(
        read_frame(&huge.to_be_bytes().to_vec()),
        Arrived::TooLong(e) if e.len == huge
    ));
}

#[test]
fn frames_arrive_in_pieces_and_in_rows() {
    let mut stream = write_frame(&vec![1, 2, 3]).ok().unwrap();
    for n in 0..stream.len() {
        assert!(matches!(read_frame(&stream[..n].to_vec()), Arrived::Partial));
    }
    stream.extend_from_slice(&write_frame(&Vec::new()).ok().unwrap());
    match read_frame(&stream) {
        Arrived::Message { data, used } => {
            assert_eq!(data, [1, 2, 3]);
            match read_frame(&stream[used..].to_vec()) {
                Arrived::Message { data, used } => {
                    assert!(data.is_empty());
                    assert_eq!(used, 4);
                }
                _ => panic!("expected the empty frame"),
            }
        }
        _ => panic!("expected a frame"),
    }
}

#[test]
fn lengths_are_big_endian_and_bounded() {
    assert_eq!(MAX_FRAME, 16 * 1024 * 1024);
    assert_eq!(frame_len(0, 0, 1, 2).ok(), Some(258));
    assert_eq!(frame_len(1, 0, 0, 0).ok(), Some(MAX_FRAME));
    let e = frame_len(1, 0, 0, 1).err().unwrap();
    assert_eq!(e.len, MAX_FRAME + 1);
    assert_eq!(e.text(), "hub frame too large: 16777217 (max 16777216)");
    let long = vec![0; MAX_FRAME as usize];
    assert!(write_frame(&long).is_ok());
    let longer = vec![0; MAX_FRAME as usize + 1];
    assert!(write_frame(&longer).is_err());
}
