use event_queue::events::Event;
use event_queue::{AoError, Side};

fn sample_fill(callback_info_len: usize) -> Event {
    Event::Fill {
        taker_side: Side::Bid,
        maker_order_id: 0x0102030405060708090a0b0c0d0e0f10u128,
        quote_size: 77,
        asset_size: 88,
        maker_callback_info: vec![0xaa; callback_info_len],
        taker_callback_info: vec![0xbb; callback_info_len],
    }
}

fn sample_out(callback_info_len: usize) -> Event {
    Event::Out {
        side: Side::Ask,
        order_id: 0x0102030405060708090a0b0c0d0e0f10u128,
        asset_size: 99,
        callback_info: vec![0xcc; callback_info_len],
    }
}

#[test]
fn serialize_fill_exact_bytes() {
    let mut bytes: Vec<u8> = Vec::new();
    sample_fill(2).serialize(&mut bytes);
    let mut expected: Vec<u8> = vec![0, 0];
    expected.extend_from_slice(&0x0102030405060708090a0b0c0d0e0f10u128.to_le_bytes());
    expected.extend_from_slice(&77u64.to_le_bytes());
    expected.extend_from_slice(&88u64.to_le_bytes());
    expected.extend_from_slice(&[0xaa, 0xaa, 0xbb, 0xbb]);
    assert_eq!(bytes, expected);
    assert_eq!(bytes.len(), 34 + 2 * 2);
}

#[test]
fn serialize_out_exact_bytes() {
    let mut bytes: Vec<u8> = Vec::new();
    sample_out(3).serialize(&mut bytes);
    let mut expected: Vec<u8> = vec![1, 1];
    expected.extend_from_slice(&0x0102030405060708090a0b0c0d0e0f10u128.to_le_bytes());
    expected.extend_from_slice(&99u64.to_le_bytes());
    expected.extend_from_slice(&[0xcc, 0xcc, 0xcc]);
    assert_eq!(bytes, expected);
    assert_eq!(bytes.len(), 26 + 3);
}

#[test]
fn roundtrip_fill() {
    let mut bytes: Vec<u8> = Vec::new();
    sample_fill(4).serialize(&mut bytes);
    match Event::deserialize(&bytes, 4).unwrap() {
        Event::Fill {
            taker_side,
            maker_order_id,
            quote_size,
            asset_size,
            maker_callback_info,
            taker_callback_info,
        } => {
            assert_eq!(taker_side, Side::Bid);
            assert_eq!(maker_order_id, 0x0102030405060708090a0b0c0d0e0f10u128);
            assert_eq!(quote_size, 77);
            assert_eq!(asset_size, 88);
            assert_eq!(maker_callback_info, vec![0xaa; 4]);
            assert_eq!(taker_callback_info, vec![0xbb; 4]);
        }
        other => panic!("expected a Fill, got {:?}", other),
    }
}

#[test]
fn roundtrip_out() {
    let mut bytes: Vec<u8> = Vec::new();
    sample_out(0).serialize(&mut bytes);
    match Event::deserialize(&bytes, 0).unwrap() {
        Event::Out { side, order_id, asset_size, callback_info } => {
            assert_eq!(side, Side::Ask);
            assert_eq!(order_id, 0x0102030405060708090a0b0c0d0e0f10u128);
            assert_eq!(asset_size, 99);
            assert!(callback_info.is_empty());
        }
        other => panic!("expected an Out, got {:?}", other),
    }
}

#[test]
fn deserialize_bad_discriminant_is_decode_error() {
    let bytes = vec![7u8; 64];
    match Event::deserialize(&bytes, 0) {
        Err(AoError::DecodeError) => {}
        other => panic!("expected a decode error, got {:?}", other),
    }
}

#[test]
fn deserialize_bad_side_is_decode_error() {
    let mut bytes = vec![0u8; 40];
    bytes[1] = 9;
    match Event::deserialize(&bytes, 3) {
        Err(AoError::DecodeError) => {}
        other => panic!("expected a decode error, got {:?}", other),
    }
}

#[test]
fn opposite_swaps_and_is_involutive() {
    assert_eq!(Side::Bid.opposite(), Side::Ask);
    assert_eq!(Side::Ask.opposite(), Side::Bid);
    assert_eq!(Side::Bid.opposite().opposite(), Side::Bid);
}
