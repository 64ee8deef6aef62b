use tactical_core::{decode_class_and_position, encode_class_and_position, BroadcastFrame, ObjectClass};

#[test]
fn frame_layout() {
    let msg = encode_class_and_position(ObjectClass::Frigate, 0x0102030405060708, 0, u64::MAX);
    assert_eq!(msg.len(), 32);
    assert_eq!(msg[0], 1);
    assert_eq!(&msg[1..7], &[0u8; 6]);
    assert_eq!(&msg[8..16], &[8, 7, 6, 5, 4, 3, 2, 1]);
    assert_eq!(&msg[16..24], &[0u8; 8]);
    assert_eq!(&msg[24..32], &[255u8; 8]);
    let sum: u32 = 1 + 36 + 8 * 255;
    assert_eq!(msg[7] as u32, sum % 256);
}

#[test]
fn frame_round_trip_with_real_values() {
    let (x, y, h) = (1234.5f64, -987.25f64, 1.25f64);
    let msg = encode_class_and_position(ObjectClass::Cruiser, x.to_bits(), y.to_bits(), h.to_bits());
    let f = decode_class_and_position(&msg).unwrap();
    assert_eq!(f.class, ObjectClass::Cruiser);
    assert_eq!(f64::from_bits(f.x_bits), x);
    assert_eq!(f64::from_bits(f.y_bits), y);
    assert_eq!(f64::from_bits(f.heading_bits), h);
    // the same bytes as the simulator's own encoding of the numbers
    assert_eq!(&msg[8..16], &x.to_le_bytes());
}

#[test]
fn non_ship_class_decodes_as_unknown() {
    let msg = encode_class_and_position(ObjectClass::Missile, 1, 2, 3);
    assert_eq!(msg[0], 5);
    let f = decode_class_and_position(&msg).unwrap();
    assert_eq!(f, BroadcastFrame { class: ObjectClass::Unknown, x_bits: 1, y_bits: 2, heading_bits: 3 });
}

#[test]
fn corrupted_byte_is_rejected() {
    let msg = encode_class_and_position(ObjectClass::Fighter, 11, 22, 33);
    for i in [0usize, 7, 8, 15, 20, 31] {
        let mut bad = msg.clone();
        bad[i] = bad[i].wrapping_add(1);
        assert_eq!(decode_class_and_position(&bad), None);
    }
}

#[test]
fn short_message_is_rejected() {
    let msg = encode_class_and_position(ObjectClass::Fighter, 11, 22, 33);
    assert_eq!(decode_class_and_position(&msg[..31]), None);
    assert_eq!(decode_class_and_position(&[]), None);
}

#[test]
fn longer_message_decodes_its_frame() {
    let mut msg = encode_class_and_position(ObjectClass::Fighter, 11, 22, 33);
    msg.push(200);
    let f = decode_class_and_position(&msg).unwrap();
    assert_eq!(f.class, ObjectClass::Fighter);
    assert_eq!(f.heading_bits, 33);
}

#[test]
fn class_codes() {
    assert_eq!(ObjectClass::Torpedo.code(), 6);
    assert_eq!(ObjectClass::from_code(2), ObjectClass::Cruiser);
    assert_eq!(ObjectClass::from_code(4), ObjectClass::Unknown);
    assert!(ObjectClass::Missile.is_ordnance());
    assert!(!ObjectClass::Fighter.is_ordnance());
}
