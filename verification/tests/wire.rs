use cursor_party::codec::encode_diff;
use cursor_party::codec::encode_update_section;
use cursor_party::control::heartbeat_message;
use cursor_party::control::myid_message;
use cursor_party::control::parse_heartbeat;
use cursor_party::position::decode_position;
use cursor_party::position::encode_position;
use cursor_party::position::position_eq;
use cursor_party::position::Position;
use cursor_party::position::PositionError;

fn pos(x: f32, y: f32) -> Position {
    Position { x_bits: x.to_bits(), y_bits: y.to_bits() }
}

fn frame(x: f32, y: f32) -> Vec<u8> {
    let mut b = x.to_le_bytes().to_vec();
    b.extend_from_slice(&y.to_le_bytes());
    b
}

#[test]
fn decode_accepts_interior_point() {
    let b = frame(0.25, 0.75);
    let p = decode_position(&b).unwrap();
    assert_eq!(p, pos(0.25, 0.75));
}

#[test]
fn decode_accepts_boundaries() {
    assert_eq!(decode_position(&frame(0.0, 0.0)).unwrap(), pos(0.0, 0.0));
    assert_eq!(decode_position(&frame(1.0, 1.0)).unwrap(), pos(1.0, 1.0));
    assert_eq!(decode_position(&frame(0.0, 1.0)).unwrap(), pos(0.0, 1.0));
    // -0.0 compares equal to 0.0, so it is inside the closed interval.
    let p = decode_position(&frame(-0.0, 0.5)).unwrap();
    assert_eq!(p.x_bits, (-0.0f32).to_bits());
}

#[test]
fn decode_rejects_just_outside() {
    // the float right above 1.0
    let above_one = f32::from_bits(1.0f32.to_bits() + 1);
    assert!(matches!(
        decode_position(&frame(above_one, 0.5)),
        Err(PositionError::OutOfBoundsFloats)
    ));
    // the negative float closest to zero
    let below_zero = f32::from_bits((-0.0f32).to_bits() + 1);
    assert!(matches!(
        decode_position(&frame(0.5, below_zero)),
        Err(PositionError::OutOfBoundsFloats)
    ));
    assert!(matches!(
        decode_position(&frame(-1.0, 0.5)),
        Err(PositionError::OutOfBoundsFloats)
    ));
    assert!(matches!(
        decode_position(&frame(0.5, f32::NAN)),
        Err(PositionError::OutOfBoundsFloats)
    ));
    assert!(matches!(
        decode_position(&frame(f32::INFINITY, 0.5)),
        Err(PositionError::OutOfBoundsFloats)
    ));
}

#[test]
fn decode_rejects_wrong_length() {
    for n in [0usize, 1, 7, 9, 16] {
        let b = vec![0u8; n];
        assert!(matches!(
            decode_position(&b),
            Err(PositionError::BadMessageSize)
        ));
    }
}

#[test]
fn position_round_trips_through_bytes() {
    for (x, y) in [(0.0f32, 0.0f32), (1.0, 1.0), (0.125, 0.875), (-0.0, 0.5)] {
        let p = pos(x, y);
        let b = encode_position(&p);
        assert_eq!(b, frame(x, y));
        assert_eq!(decode_position(&b).unwrap(), p);
    }
}

#[test]
fn position_eq_identifies_signed_zero() {
    assert!(position_eq(&pos(-0.0, 0.0), &pos(0.0, -0.0)));
    assert!(!position_eq(&pos(0.5, 0.0), &pos(0.0, 0.5)));
}

#[test]
fn diff_encodes_both_sections_in_order() {
    let updates = vec![(7u32, pos(0.25, 0.75))];
    let removes = vec![3u32, 9u32];
    let m = encode_diff(&updates, &removes).unwrap();
    let mut want: Vec<u8> = Vec::new();
    want.extend_from_slice(&2u32.to_le_bytes());
    want.extend_from_slice(&1u32.to_le_bytes());
    want.extend_from_slice(&7u32.to_le_bytes());
    want.extend_from_slice(&0.25f32.to_le_bytes());
    want.extend_from_slice(&0.75f32.to_le_bytes());
    want.extend_from_slice(&3u32.to_le_bytes());
    want.extend_from_slice(&2u32.to_le_bytes());
    want.extend_from_slice(&3u32.to_le_bytes());
    want.extend_from_slice(&9u32.to_le_bytes());
    assert_eq!(m, want);
}

#[test]
fn diff_omits_empty_sections() {
    let no_updates: Vec<(u32, Position)> = Vec::new();
    let removes = vec![5u32];
    let m = encode_diff(&no_updates, &removes).unwrap();
    let mut want: Vec<u8> = Vec::new();
    want.extend_from_slice(&3u32.to_le_bytes());
    want.extend_from_slice(&1u32.to_le_bytes());
    want.extend_from_slice(&5u32.to_le_bytes());
    assert_eq!(m, want);

    let updates = vec![(1u32, pos(0.0, 0.0))];
    let no_removes: Vec<u32> = Vec::new();
    let m2 = encode_diff(&updates, &no_removes).unwrap();
    assert_eq!(&m2[0..4], &2u32.to_le_bytes());
    assert_eq!(m2.len(), 8 + 12);
}

#[test]
fn diff_with_nothing_pending_is_no_frame() {
    let no_updates: Vec<(u32, Position)> = Vec::new();
    let no_removes: Vec<u32> = Vec::new();
    assert!(encode_diff(&no_updates, &no_removes).is_none());
}

#[test]
fn snapshot_is_a_bare_update_section() {
    let entries = vec![(1u32, pos(0.0, 0.0)), (2u32, pos(0.5, 0.5))];
    let m = encode_update_section(&entries);
    let mut want: Vec<u8> = Vec::new();
    want.extend_from_slice(&2u32.to_le_bytes());
    want.extend_from_slice(&2u32.to_le_bytes());
    want.extend_from_slice(&1u32.to_le_bytes());
    want.extend_from_slice(&0.0f32.to_le_bytes());
    want.extend_from_slice(&0.0f32.to_le_bytes());
    want.extend_from_slice(&2u32.to_le_bytes());
    want.extend_from_slice(&0.5f32.to_le_bytes());
    want.extend_from_slice(&0.5f32.to_le_bytes());
    assert_eq!(m, want);
}

#[test]
fn myid_message_is_json() {
    assert_eq!(myid_message(1), b"{\"myid\":1}".to_vec());
    assert_eq!(myid_message(0), b"{\"myid\":0}".to_vec());
    assert_eq!(myid_message(4070), b"{\"myid\":4070}".to_vec());
    assert_eq!(myid_message(u32::MAX), b"{\"myid\":4294967295}".to_vec());
}

#[test]
fn heartbeat_message_is_json() {
    assert_eq!(heartbeat_message(), b"{\"heartbeat\":true}".to_vec());
}

#[test]
fn parse_heartbeat_accepts_both_values_and_whitespace() {
    assert_eq!(parse_heartbeat(&b"{\"heartbeat\":true}".to_vec()), Some(true));
    assert_eq!(parse_heartbeat(&b"{\"heartbeat\":false}".to_vec()), Some(false));
    assert_eq!(
        parse_heartbeat(&b" { \"heartbeat\" :\ttrue }\n".to_vec()),
        Some(true)
    );
}

#[test]
fn parse_heartbeat_rejects_everything_else() {
    assert_eq!(parse_heartbeat(&b"".to_vec()), None);
    assert_eq!(parse_heartbeat(&b"{}".to_vec()), None);
    assert_eq!(parse_heartbeat(&b"{\"heartbeat\":1}".to_vec()), None);
    assert_eq!(parse_heartbeat(&b"{\"heartbeat\":true".to_vec()), None);
    assert_eq!(parse_heartbeat(&b"{\"heartbeat\":true}x".to_vec()), None);
    assert_eq!(parse_heartbeat(&b"{\"myid\":3}".to_vec()), None);
    assert_eq!(parse_heartbeat(&b"heartbeat".to_vec()), None);
}
