use vmc::frame::{SerializedDataContainer, HEADER_LEN};

#[test]
fn frame_is_length_then_payload() {
    let container = SerializedDataContainer::new(&[0xAA, 0xBB, 0xCC]);
    assert_eq!(
        container.to_one_vec(),
        vec![3, 0, 0, 0, 0, 0, 0, 0, 0xAA, 0xBB, 0xCC]
    );
    assert_eq!(container.payload(), &[0xAA, 0xBB, 0xCC]);
}

#[test]
fn empty_payload_is_a_bare_header() {
    let container = SerializedDataContainer::new(&[]);
    assert_eq!(container.to_one_vec(), vec![0u8; 8]);
    assert_eq!(HEADER_LEN, 8);
}

#[test]
fn length_field_is_little_endian() {
    let payload = vec![7u8; 0x0102];
    let frame = SerializedDataContainer::new(&payload).to_one_vec();
    assert_eq!(&frame[..8], &[0x02, 0x01, 0, 0, 0, 0, 0, 0]);
    assert_eq!(frame.len(), 8 + 0x0102);
    assert_eq!(&frame[8..], &payload[..]);
}

#[test]
fn frame_round_trip() {
    let payload: Vec<u8> = (0..=255u8).collect();
    let frame = SerializedDataContainer::new(&payload).to_one_vec();
    let back = SerializedDataContainer::from_one_vec(frame).unwrap();
    assert_eq!(back.payload(), &payload[..]);
    assert_eq!(back, SerializedDataContainer::new(&payload));
}

#[test]
fn too_short_for_a_header_is_no_frame() {
    assert_eq!(SerializedDataContainer::from_one_vec(vec![]), None);
    assert_eq!(SerializedDataContainer::from_one_vec(vec![1, 0, 0, 0, 0, 0, 0]), None);
}

#[test]
fn shorter_than_declared_is_no_frame() {
    assert_eq!(
        SerializedDataContainer::from_one_vec(vec![2, 0, 0, 0, 0, 0, 0, 0, 0xAA]),
        None
    );
    assert_eq!(
        SerializedDataContainer::from_one_vec(vec![0xFF; 8]),
        None
    );
}

#[test]
fn bytes_behind_the_frame_are_left_alone() {
    let back =
        SerializedDataContainer::from_one_vec(vec![1, 0, 0, 0, 0, 0, 0, 0, 0xAA, 0xBB]).unwrap();
    assert_eq!(back.payload(), &[0xAA]);
}

#[test]
fn two_frames_come_apart_in_order() {
    let first = SerializedDataContainer::new(b"first");
    let second = SerializedDataContainer::new(b"second!");
    let mut stream = first.to_one_vec();
    stream.extend(second.to_one_vec());
    let a = SerializedDataContainer::from_one_vec(stream.clone()).unwrap();
    assert_eq!(a.payload(), b"first");
    let rest = stream[HEADER_LEN + a.payload().len()..].to_vec();
    let b = SerializedDataContainer::from_one_vec(rest).unwrap();
    assert_eq!(b.payload(), b"second!");
}

#[test]
fn payload_len_reads_the_header() {
    assert_eq!(
        SerializedDataContainer::payload_len(&[0x10, 0x27, 0, 0, 0, 0, 0, 0]),
        Some(10000)
    );
    assert_eq!(SerializedDataContainer::payload_len(&[0; 8]), Some(0));
    assert_eq!(SerializedDataContainer::payload_len(&[0; 7]), None);
    assert_eq!(SerializedDataContainer::payload_len(&[0; 9]), None);
}

#[test]
fn from_parts_wants_the_declared_length() {
    let header = [2u8, 0, 0, 0, 0, 0, 0, 0];
    let whole = SerializedDataContainer::from_parts(&header, vec![5, 6]).unwrap();
    assert_eq!(whole.payload(), &[5, 6]);
    assert_eq!(SerializedDataContainer::from_parts(&header, vec![5]), None);
    assert_eq!(SerializedDataContainer::from_parts(&header, vec![5, 6, 7]), None);
    assert_eq!(SerializedDataContainer::from_parts(&header[..7], vec![5, 6]), None);
}
