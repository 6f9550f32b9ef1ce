use crossbeam_channel::bounded;
use noray_relay::error::NetError;
use noray_relay::packet_handler::{GameState, GameStatePacket, PACKET_SIZE};
use noray_relay::remote_player::{receive_remote_updates, PeerState, RemotePlayerData};
use noray_relay::transport::{
    accept_datagram, decode_datagrams, delivery_step, encode_snapshots, local_snapshot,
    next_outbound, outbound_datagram, outbound_step, relay_inbound, sync_local_state, InboundStep,
    OutboundStep, SocketRead, QUEUE_CAPACITY,
};

fn oid_of(tag: u8) -> String {
    let mut s = String::new();
    for _ in 0..32 {
        s.push((b'a' + tag) as char);
    }
    s
}

fn snap(tag: u8, frame: u32) -> GameState {
    GameState {
        oid: oid_of(tag),
        frame,
        x_bits: (frame as f32).to_bits(),
        y_bits: 25.0f32.to_bits(),
        vx_bits: 300.0f32.to_bits(),
        vy_bits: (-9.0f32).to_bits(),
        is_jumping: frame % 2 == 1,
    }
}

fn datagram(bytes: &[u8]) -> SocketRead {
    SocketRead::Datagram(bytes.to_vec())
}

fn motion(x: f32) -> PeerState {
    PeerState {
        x_bits: x.to_bits(),
        y_bits: 25.0f32.to_bits(),
        vx_bits: 0,
        vy_bits: 0,
        is_jumping: false,
    }
}

#[test]
fn queue_capacity_is_one_hundred() {
    assert_eq!(QUEUE_CAPACITY, 100);
}

#[test]
fn short_datagram_is_discarded_and_later_ones_still_arrive() {
    let (tx, rx) = bounded::<GameState>(QUEUE_CAPACITY);
    let good = GameStatePacket::encode(&snap(1, 3)).unwrap();
    assert_eq!(relay_inbound(&tx, &datagram(&[0u8; 10]), false), InboundStep::Discarded);
    assert!(rx.try_recv().is_err());
    assert_eq!(relay_inbound(&tx, &datagram(&good), false), InboundStep::Delivered);
    assert_eq!(rx.try_recv().unwrap(), snap(1, 3));
    assert!(rx.try_recv().is_err());
}

#[test]
fn malformed_datagram_of_right_length_is_discarded() {
    let (tx, rx) = bounded::<GameState>(QUEUE_CAPACITY);
    let mut bad = GameStatePacket::encode(&snap(1, 3)).unwrap();
    bad[56] = 9;
    assert_eq!(bad.len(), PACKET_SIZE);
    assert_eq!(relay_inbound(&tx, &datagram(&bad), false), InboundStep::Discarded);
    assert!(rx.try_recv().is_err());
}

#[test]
fn inbound_reports_a_closed_queue() {
    let (tx, rx) = bounded::<GameState>(QUEUE_CAPACITY);
    drop(rx);
    let good = GameStatePacket::encode(&snap(1, 3)).unwrap();
    assert_eq!(relay_inbound(&tx, &datagram(&good), false), InboundStep::Closed);
    assert_eq!(relay_inbound(&tx, &datagram(&[1, 2, 3]), false), InboundStep::Discarded);
    assert_eq!(delivery_step(true), InboundStep::Delivered);
    assert_eq!(delivery_step(false), InboundStep::Closed);
}

#[test]
fn accept_datagram_decodes_or_drops() {
    let good = GameStatePacket::encode(&snap(2, 8)).unwrap();
    assert_eq!(accept_datagram(&good), Some(snap(2, 8)));
    assert_eq!(accept_datagram(&good[1..]), None);
    assert_eq!(accept_datagram(&[]), None);
}

#[test]
fn batch_decode_skips_bad_datagrams() {
    let a = GameStatePacket::encode(&snap(1, 1)).unwrap();
    let b = GameStatePacket::encode(&snap(2, 2)).unwrap();
    let with_bad = vec![a.clone(), vec![0u8; 10], b.clone(), vec![], vec![7u8; 57]];
    let without = vec![a, b];
    assert_eq!(decode_datagrams(&with_bad), vec![snap(1, 1), snap(2, 2)]);
    assert_eq!(decode_datagrams(&with_bad), decode_datagrams(&without));
    assert_eq!(decode_datagrams(&[]), Vec::<GameState>::new());
}

#[test]
fn outbound_sends_one_datagram_per_snapshot_in_order() {
    let (tx, rx) = bounded::<GameState>(QUEUE_CAPACITY);
    let n = 25u32;
    for f in 0..n {
        tx.send(snap((f % 3) as u8, f)).unwrap();
    }
    drop(tx);
    let mut sent: Vec<Vec<u8>> = Vec::new();
    loop {
        match next_outbound(&rx, false) {
            OutboundStep::Send(bytes) => sent.push(bytes),
            OutboundStep::Skip(e) => panic!("unexpected skip {:?}", e),
            OutboundStep::Cancelled => panic!("nobody cancelled"),
            OutboundStep::Closed => break,
        }
    }
    assert_eq!(sent.len(), n as usize);
    for f in 0..n {
        assert_eq!(sent[f as usize], GameStatePacket::encode(&snap((f % 3) as u8, f)).unwrap());
        assert_eq!(sent[f as usize].len(), PACKET_SIZE);
    }
}

#[test]
fn outbound_skips_what_cannot_be_encoded() {
    let (tx, rx) = bounded::<GameState>(QUEUE_CAPACITY);
    let mut bad = snap(1, 1);
    bad.oid = "too-short".to_string();
    tx.send(bad.clone()).unwrap();
    tx.send(snap(1, 2)).unwrap();
    drop(tx);
    assert_eq!(next_outbound(&rx, false), OutboundStep::Skip(NetError::Serialization));
    assert_eq!(
        next_outbound(&rx, false),
        OutboundStep::Send(GameStatePacket::encode(&snap(1, 2)).unwrap())
    );
    assert_eq!(next_outbound(&rx, false), OutboundStep::Closed);
    assert_eq!(outbound_step(None), OutboundStep::Closed);
    assert_eq!(outbound_step(Some(bad.clone())), OutboundStep::Skip(NetError::Serialization));
    assert_eq!(outbound_datagram(bad), Err(NetError::Serialization));
    assert_eq!(outbound_datagram(snap(1, 2)), GameStatePacket::encode(&snap(1, 2)));
}

#[test]
fn batch_encode_keeps_order_and_count() {
    let states: Vec<GameState> = (0..40u32).map(|f| snap((f % 5) as u8, f)).collect();
    let sent = encode_snapshots(&states);
    assert_eq!(sent.len(), states.len());
    for (s, d) in states.iter().zip(sent.iter()) {
        assert_eq!(d, &GameStatePacket::encode(s).unwrap());
    }
    assert_eq!(decode_datagrams(&sent), states);
}

#[test]
fn batch_encode_leaves_out_unencodable_snapshots() {
    let mut bad = snap(1, 1);
    bad.oid = String::new();
    let sent = encode_snapshots(&[snap(0, 0), bad, snap(2, 2)]);
    assert_eq!(decode_datagrams(&sent), vec![snap(0, 0), snap(2, 2)]);
}

#[test]
fn local_snapshot_carries_frame_and_motion() {
    let oid = oid_of(4);
    let s = local_snapshot(&oid, 77, motion(3.5));
    assert_eq!(s.oid, oid);
    assert_eq!(s.frame, 77);
    assert_eq!(f32::from_bits(s.x_bits), 3.5);
    assert_eq!(f32::from_bits(s.y_bits), 25.0);
    assert!(!s.is_jumping);
}

#[test]
fn sync_local_state_queues_and_counts_frames() {
    let (tx, rx) = bounded::<GameState>(QUEUE_CAPACITY);
    let oid = oid_of(0);
    let mut frame = 0u32;
    assert!(sync_local_state(&tx, &oid, &mut frame, motion(1.0)));
    assert!(sync_local_state(&tx, &oid, &mut frame, motion(2.0)));
    assert_eq!(frame, 2);
    let first = rx.try_recv().unwrap();
    let second = rx.try_recv().unwrap();
    assert_eq!((first.frame, f32::from_bits(first.x_bits)), (0, 1.0));
    assert_eq!((second.frame, f32::from_bits(second.x_bits)), (1, 2.0));
    frame = u32::MAX;
    assert!(sync_local_state(&tx, &oid, &mut frame, motion(3.0)));
    assert_eq!(frame, 0);
    assert_eq!(rx.try_recv().unwrap().frame, u32::MAX);
    drop(rx);
    assert!(!sync_local_state(&tx, &oid, &mut frame, motion(3.0)));
    assert_eq!(frame, 1);
}

#[test]
fn table_starts_empty() {
    let t = RemotePlayerData::new();
    assert_eq!(t.len(), 0);
    assert!(!t.initialized());
    assert_eq!(t.get(&oid_of(1)), None);
    let d = RemotePlayerData::default();
    assert_eq!(d.len(), 0);
    assert!(!d.initialized());
}

#[test]
fn table_keeps_latest_state_per_peer() {
    let me = oid_of(0);
    let mut t = RemotePlayerData::new();
    t.apply_update(&me, &snap(1, 1));
    t.apply_update(&me, &snap(2, 2));
    t.apply_update(&me, &snap(1, 7));
    assert_eq!(t.len(), 2);
    assert!(t.initialized());
    let one = t.get(&oid_of(1)).unwrap();
    assert_eq!(f32::from_bits(one.x_bits), 7.0);
    assert!(one.is_jumping);
    assert_eq!(f32::from_bits(one.vy_bits), -9.0);
    let two = t.get(&oid_of(2)).unwrap();
    assert_eq!(f32::from_bits(two.x_bits), 2.0);
    assert!(!two.is_jumping);
    assert_eq!(t.get(&oid_of(3)), None);
}

#[test]
fn table_ignores_the_local_peer() {
    let me = oid_of(0);
    let mut t = RemotePlayerData::new();
    t.apply_update(&me, &snap(0, 5));
    assert_eq!(t.len(), 0);
    assert!(!t.initialized());
    assert_eq!(t.get(&me), None);
}

#[test]
fn table_does_not_filter_by_frame() {
    let me = oid_of(0);
    let mut t = RemotePlayerData::new();
    t.apply_update(&me, &snap(1, 9));
    t.apply_update(&me, &snap(1, 4));
    assert_eq!(f32::from_bits(t.get(&oid_of(1)).unwrap().x_bits), 4.0);
}

#[test]
fn receive_drains_the_inbound_queue() {
    let (tx, rx) = bounded::<GameState>(QUEUE_CAPACITY);
    let me = oid_of(0);
    let mut t = RemotePlayerData::new();
    assert_eq!(receive_remote_updates(&mut t, &rx, &me), 0);
    assert!(!t.initialized());
    tx.send(snap(1, 1)).unwrap();
    tx.send(snap(0, 2)).unwrap();
    tx.send(snap(2, 3)).unwrap();
    tx.send(snap(1, 4)).unwrap();
    assert_eq!(receive_remote_updates(&mut t, &rx, &me), 4);
    assert_eq!(t.len(), 2);
    assert!(t.initialized());
    assert_eq!(t.get(&me), None);
    assert_eq!(f32::from_bits(t.get(&oid_of(1)).unwrap().x_bits), 4.0);
    assert_eq!(f32::from_bits(t.get(&oid_of(2)).unwrap().x_bits), 3.0);
    assert_eq!(receive_remote_updates(&mut t, &rx, &me), 0);
    assert_eq!(t.len(), 2);
}

#[test]
fn receive_takes_at_most_one_queue_full() {
    let (tx, rx) = bounded::<GameState>(250);
    let me = oid_of(0);
    let mut t = RemotePlayerData::new();
    for f in 0..250u32 {
        tx.send(snap(1, f)).unwrap();
    }
    assert_eq!(receive_remote_updates(&mut t, &rx, &me), 100);
    assert_eq!(f32::from_bits(t.get(&oid_of(1)).unwrap().x_bits), 99.0);
    assert_eq!(receive_remote_updates(&mut t, &rx, &me), 100);
    assert_eq!(receive_remote_updates(&mut t, &rx, &me), 50);
    assert_eq!(f32::from_bits(t.get(&oid_of(1)).unwrap().x_bits), 249.0);
}

#[test]
fn table_lists_every_peer_once() {
    let me = oid_of(0);
    let mut t = RemotePlayerData::new();
    assert!(t.entries().is_empty());
    t.apply_update(&me, &snap(1, 1));
    t.apply_update(&me, &snap(2, 2));
    t.apply_update(&me, &snap(1, 3));
    t.apply_update(&me, &snap(0, 4));
    let mut rows = t.entries();
    rows.sort_by_key(|row| row.oid.clone());
    assert_eq!(rows.len(), 2);
    assert_eq!(rows[0].oid, oid_of(1));
    assert_eq!(f32::from_bits(rows[0].state.x_bits), 3.0);
    assert_eq!(rows[1].oid, oid_of(2));
    assert_eq!(f32::from_bits(rows[1].state.x_bits), 2.0);
    assert_eq!(rows[1].state, t.get(&oid_of(2)).unwrap());
}

#[test]
fn inbound_pump_obeys_cancellation_before_anything_else() {
    let (tx, rx) = bounded::<GameState>(QUEUE_CAPACITY);
    let good = GameStatePacket::encode(&snap(1, 3)).unwrap();
    assert_eq!(relay_inbound(&tx, &datagram(&good), true), InboundStep::Cancelled);
    assert_eq!(relay_inbound(&tx, &SocketRead::TimedOut, true), InboundStep::Cancelled);
    assert_eq!(relay_inbound(&tx, &SocketRead::Closed, true), InboundStep::Cancelled);
    assert!(rx.try_recv().is_err());
}

#[test]
fn inbound_pump_ends_on_socket_closure_only() {
    let (tx, rx) = bounded::<GameState>(QUEUE_CAPACITY);
    assert_eq!(relay_inbound(&tx, &SocketRead::Closed, false), InboundStep::SocketClosed);
    assert_eq!(relay_inbound(&tx, &SocketRead::TimedOut, false), InboundStep::Idle);
    assert!(rx.try_recv().is_err());
    assert!(InboundStep::SocketClosed.ends_pump());
    assert!(InboundStep::Closed.ends_pump());
    assert!(InboundStep::Cancelled.ends_pump());
    assert!(!InboundStep::Idle.ends_pump());
    assert!(!InboundStep::Discarded.ends_pump());
    assert!(!InboundStep::Delivered.ends_pump());
}

#[test]
fn outbound_pump_obeys_cancellation_without_touching_the_queue() {
    let (tx, rx) = bounded::<GameState>(QUEUE_CAPACITY);
    tx.send(snap(1, 1)).unwrap();
    assert_eq!(next_outbound(&rx, true), OutboundStep::Cancelled);
    assert_eq!(
        next_outbound(&rx, false),
        OutboundStep::Send(GameStatePacket::encode(&snap(1, 1)).unwrap())
    );
    assert!(OutboundStep::Cancelled.ends_pump());
    assert!(OutboundStep::Closed.ends_pump());
    assert!(!OutboundStep::Skip(NetError::Serialization).ends_pump());
    assert!(!OutboundStep::Send(vec![]).ends_pump());
}

#[test]
fn receive_marks_the_table_initialised_only_by_remote_snapshots() {
    let (tx, rx) = bounded::<GameState>(QUEUE_CAPACITY);
    let me = oid_of(0);
    let mut t = RemotePlayerData::new();
    tx.send(snap(0, 1)).unwrap();
    tx.send(snap(0, 2)).unwrap();
    assert_eq!(receive_remote_updates(&mut t, &rx, &me), 2);
    assert!(!t.initialized());
    tx.send(snap(0, 3)).unwrap();
    tx.send(snap(3, 4)).unwrap();
    assert_eq!(receive_remote_updates(&mut t, &rx, &me), 2);
    assert!(t.initialized());
    tx.send(snap(0, 5)).unwrap();
    assert_eq!(receive_remote_updates(&mut t, &rx, &me), 1);
    assert!(t.initialized());
}
