use rlink::codec::{decode_frame, encode_element, FrameError};
use rlink::element::{Element, Record, StreamStatus};

#[test]
fn barrier_frame_bytes() {
    let bytes = encode_element(&Element::Barrier(5)).unwrap();
    assert_eq!(bytes, vec![0, 0, 0, 9, 3, 0, 0, 0, 0, 0, 0, 0, 5]);
    assert!(matches!(decode_frame(&bytes), Ok(Element::Barrier(5))));
}

#[test]
fn record_frame_bytes_and_round_trip() {
    let r = Record::new(-2, Some(b"k".to_vec()), b"ab".to_vec());
    let bytes = encode_element(&Element::Record(r)).unwrap();
    let mut expected = vec![0, 0, 0, 20, 1];
    expected.extend_from_slice(&(-2i64).to_be_bytes());
    expected.extend_from_slice(&[0, 0, 0, 1, b'k', 0, 0, 0, 2, b'a', b'b']);
    assert_eq!(bytes, expected);
    match decode_frame(&bytes) {
        Ok(Element::Record(back)) => {
            assert_eq!(back.timestamp, -2);
            assert_eq!(back.key, Some(b"k".to_vec()));
            assert_eq!(back.body, b"ab".to_vec());
        }
        other => panic!("{:?}", other),
    }
}

#[test]
fn keyless_record_and_control_elements_round_trip() {
    let bytes = encode_element(&Element::Record(Record::new(7, None, vec![]))).unwrap();
    match decode_frame(&bytes) {
        Ok(Element::Record(back)) => {
            assert_eq!(back.timestamp, 7);
            assert_eq!(back.key, None);
            assert!(back.body.is_empty());
        }
        other => panic!("{:?}", other),
    }
    let w = encode_element(&Element::Watermark(i64::MIN)).unwrap();
    assert!(matches!(decode_frame(&w), Ok(Element::Watermark(i64::MIN))));
    let s = encode_element(&Element::StreamStatus(StreamStatus::Idle)).unwrap();
    assert_eq!(s, vec![0, 0, 0, 2, 4, 0]);
    assert!(matches!(decode_frame(&s), Ok(Element::StreamStatus(StreamStatus::Idle))));
}

#[test]
fn frame_errors() {
    assert_eq!(decode_frame(&vec![0, 0, 0]).unwrap_err(), FrameError::TooShort);
    assert_eq!(decode_frame(&vec![0, 0, 0, 5, 3, 0]).unwrap_err(), FrameError::LengthMismatch);
    assert_eq!(decode_frame(&vec![0, 0, 0, 1, 9]).unwrap_err(), FrameError::UnknownKind);
    assert_eq!(decode_frame(&vec![0, 0, 0, 2, 3, 0]).unwrap_err(), FrameError::BadPayload);
    assert_eq!(decode_frame(&vec![0, 0, 0, 2, 4, 7]).unwrap_err(), FrameError::BadPayload);
}
