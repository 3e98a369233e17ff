use cursor_party::hub::Hub;
use cursor_party::position::Position;

fn pos(x: f32, y: f32) -> Position {
    Position { x_bits: x.to_bits(), y_bits: y.to_bits() }
}

fn update_section(entries: &[(u32, f32, f32)]) -> Vec<u8> {
    let mut b: Vec<u8> = Vec::new();
    b.extend_from_slice(&2u32.to_le_bytes());
    b.extend_from_slice(&(entries.len() as u32).to_le_bytes());
    for (id, x, y) in entries {
        b.extend_from_slice(&id.to_le_bytes());
        b.extend_from_slice(&x.to_le_bytes());
        b.extend_from_slice(&y.to_le_bytes());
    }
    b
}

fn remove_section(ids: &[u32]) -> Vec<u8> {
    let mut b: Vec<u8> = Vec::new();
    b.extend_from_slice(&3u32.to_le_bytes());
    b.extend_from_slice(&(ids.len() as u32).to_le_bytes());
    for id in ids {
        b.extend_from_slice(&id.to_le_bytes());
    }
    b
}

#[test]
fn ids_are_assigned_from_one_upwards() {
    let mut hub = Hub::new();
    assert_eq!(hub.connect().id, 1);
    assert_eq!(hub.connect().id, 2);
    assert_eq!(hub.connect().id, 3);
}

#[test]
fn first_client_gets_no_snapshot_later_ones_do() {
    let mut hub = Hub::new();
    let a = hub.connect();
    assert_eq!(a.hello, b"{\"myid\":1}".to_vec());
    assert!(a.snapshot.is_none());

    let b = hub.connect();
    assert_eq!(b.hello, b"{\"myid\":2}".to_vec());
    assert_eq!(b.snapshot.unwrap(), update_section(&[(1, 0.0, 0.0)]));
}

#[test]
fn scenario_two_clients_move_and_leave() {
    let mut hub = Hub::new();
    let a = hub.connect();
    assert_eq!(a.id, 1);
    assert!(a.snapshot.is_none());

    let b = hub.connect();
    assert_eq!(b.id, 2);
    assert_eq!(b.snapshot.unwrap(), update_section(&[(1, 0.0, 0.0)]));

    // A moves; the flush delivers the update to B only. A itself was the
    // only updated client and nothing was removed, so A receives nothing.
    assert!(hub.update_position(1, pos(0.25, 0.75)));
    let out = hub.flush();
    assert_eq!(out.len(), 1);
    assert_eq!(out[0].0, 2);
    assert_eq!(out[0].1, update_section(&[(1, 0.25, 0.75)]));

    // A leaves; the next flush tells B in a bare remove section.
    assert!(hub.disconnect(1));
    let out = hub.flush();
    assert_eq!(out.len(), 1);
    assert_eq!(out[0].0, 2);
    assert_eq!(out[0].1, remove_section(&[1]));
}

#[test]
fn disconnect_twice_equals_disconnect_once() {
    let mut hub = Hub::new();
    hub.connect();
    hub.connect();
    assert!(hub.disconnect(1));
    assert!(!hub.disconnect(1));
    // the second call queued nothing further: one remove entry goes out
    let out = hub.flush();
    assert_eq!(out.len(), 1);
    assert_eq!(out[0].0, 2);
    assert_eq!(out[0].1, remove_section(&[1]));
    // and nothing remains pending afterwards
    assert!(hub.flush().is_empty());
}

#[test]
fn disconnect_of_unknown_id_is_a_no_op() {
    let mut hub = Hub::new();
    hub.connect();
    assert!(!hub.disconnect(42));
    assert!(hub.flush().is_empty());
}

#[test]
fn returning_to_last_broadcast_point_cancels_the_update() {
    let mut hub = Hub::new();
    hub.connect();
    hub.connect();
    // moving to the spot last broadcast (the origin) never arms
    assert!(!hub.update_position(1, pos(0.0, 0.0)));
    assert!(hub.flush().is_empty());
    // a real move arms, then moving back cancels it again
    assert!(hub.update_position(1, pos(0.5, 0.5)));
    assert!(!hub.update_position(1, pos(0.0, 0.0)));
    assert!(hub.flush().is_empty());
    // -0.0 counts as the same point as 0.0
    assert!(hub.update_position(1, pos(0.5, 0.5)));
    assert!(!hub.update_position(1, pos(-0.0, -0.0)));
    assert!(hub.flush().is_empty());
}

#[test]
fn update_for_unknown_id_is_ignored() {
    let mut hub = Hub::new();
    hub.connect();
    assert!(!hub.update_position(9, pos(0.5, 0.5)));
    assert!(hub.flush().is_empty());
}

#[test]
fn last_write_wins_within_a_cycle() {
    let mut hub = Hub::new();
    hub.connect();
    hub.connect();
    assert!(hub.update_position(1, pos(0.1, 0.1)));
    assert!(hub.update_position(1, pos(0.9, 0.9)));
    let out = hub.flush();
    assert_eq!(out.len(), 1);
    assert_eq!(out[0].0, 2);
    assert_eq!(out[0].1, update_section(&[(1, 0.9, 0.9)]));
}

#[test]
fn updated_clients_get_personalized_self_excluding_frames() {
    let mut hub = Hub::new();
    hub.connect();
    hub.connect();
    hub.connect();
    assert!(hub.update_position(1, pos(0.1, 0.2)));
    assert!(hub.update_position(2, pos(0.3, 0.4)));
    let out = hub.flush();
    // idle client 3 first with the full picture, then the movers in
    // pending order, each seeing only the other.
    assert_eq!(out.len(), 3);
    assert_eq!(out[0].0, 3);
    assert_eq!(
        out[0].1,
        update_section(&[(1, 0.1, 0.2), (2, 0.3, 0.4)])
    );
    assert_eq!(out[1].0, 1);
    assert_eq!(out[1].1, update_section(&[(2, 0.3, 0.4)]));
    assert_eq!(out[2].0, 2);
    assert_eq!(out[2].1, update_section(&[(1, 0.1, 0.2)]));
}

#[test]
fn a_mover_still_hears_about_removals() {
    let mut hub = Hub::new();
    hub.connect();
    hub.connect();
    assert!(hub.update_position(2, pos(0.6, 0.6)));
    assert!(hub.disconnect(1));
    let out = hub.flush();
    // client 2 moved, so its frame is personalized: no update entries
    // besides its own (excluded), but the removal of 1 is included.
    assert_eq!(out.len(), 1);
    assert_eq!(out[0].0, 2);
    assert_eq!(out[0].1, remove_section(&[1]));
}

#[test]
fn snapshot_reflects_last_broadcast_positions() {
    let mut hub = Hub::new();
    hub.connect();
    hub.connect();
    assert!(hub.update_position(1, pos(0.25, 0.25)));
    hub.flush();
    let c = hub.connect();
    assert_eq!(c.id, 3);
    assert_eq!(
        c.snapshot.unwrap(),
        update_section(&[(1, 0.25, 0.25), (2, 0.0, 0.0)])
    );
}

#[test]
fn flush_with_nothing_pending_delivers_nothing() {
    let mut hub = Hub::new();
    hub.connect();
    hub.connect();
    assert!(hub.flush().is_empty());
}
