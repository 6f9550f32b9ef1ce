//! The decisions of the two relay pumps.
//!
//! The outbound pump takes snapshots off a bounded queue and turns each into
//! one datagram; the inbound pump turns each datagram into at most one
//! snapshot and puts it on a bounded queue.  The caller owns the socket and
//! the threads; the queues are `crossbeam_channel` channels.

use vstd::prelude::*;
use crossbeam_channel::{Receiver, Sender};
use crate::error::NetError;
use crate::packet_handler::{
    encodable, lemma_decode_inverts_encode, parse_image, wire_image, GameState, GameStatePacket,
    Snapshot, PACKET_SIZE,
};
use crate::remote_player::PeerState;

verus! {

/// Capacity of each of the two session queues.
pub const QUEUE_CAPACITY: usize = 100;

/// `crossbeam_channel::Sender`, carried through as an opaque value.
#[verifier::external_type_specification]
#[verifier::external_body]
#[verifier::reject_recursive_types(T)]
pub struct ExSender<T>(Sender<T>);

/// `crossbeam_channel::Receiver`, carried through as an opaque value.
#[verifier::external_type_specification]
#[verifier::external_body]
#[verifier::reject_recursive_types(T)]
pub struct ExReceiver<T>(Receiver<T>);

/// Calls `crossbeam_channel::Sender::send`, which waits while the queue is
/// full and fails only once every receiver is gone.  The result tells whether
/// the queue took the snapshot; nothing is claimed about which case occurs,
/// since that depends on the other end.
#[verifier::external_body]
fn queue_send(tx: &Sender<GameState>, state: GameState) -> (taken: bool) {
    tx.send(state).is_ok()
}

/// Calls `crossbeam_channel::Receiver::recv`, which waits for the next
/// snapshot and fails only once the queue is empty and every sender is gone;
/// the failure is mapped to `None`.  Nothing is claimed about what arrives.
#[verifier::external_body]
fn queue_recv(rx: &Receiver<GameState>) -> (next: Option<GameState>) {
    rx.recv().ok()
}

/// Calls `crossbeam_channel::Receiver::try_recv`, which never waits: it
/// hands out the next snapshot if one is queued and fails otherwise; the
/// failure is mapped to `None`.  Nothing is claimed about what arrives.
#[verifier::external_body]
pub(crate) fn queue_try_recv(rx: &Receiver<GameState>) -> (next: Option<GameState>) {
    rx.try_recv().ok()
}

/// What one receive on the relay socket brought.
#[derive(Debug, Clone, PartialEq, Eq)]
pub enum SocketRead {
    /// One datagram, whatever it holds.
    Datagram(Vec<u8>),
    /// Nothing within the read timeout.
    TimedOut,
    /// The socket is closed or broken.
    Closed,
}

/// What the inbound pump did in one round.
#[derive(Debug, Clone, Copy, PartialEq, Eq, Structural)]
pub enum InboundStep {
    /// The datagram was not a well-formed packet and was dropped.
    Discarded,
    /// The snapshot is on the inbound queue.
    Delivered,
    /// Nothing arrived; the pump reads again.
    Idle,
    /// The consumer is gone; the pump stops.
    Closed,
    /// The socket is closed; the pump stops.
    SocketClosed,
    /// The pump was told to stop.
    Cancelled,
}

/// What the outbound pump has to do next.
#[derive(Debug, Clone, PartialEq, Eq)]
pub enum OutboundStep {
    /// Send these bytes to the relay as one datagram.
    Send(Vec<u8>),
    /// The snapshot cannot be encoded; nothing is sent for it.
    Skip(NetError),
    /// The producer is gone; the pump stops.
    Closed,
    /// The pump was told to stop.
    Cancelled,
}

/// The rounds after which the inbound pump ends: never after a malformed
/// datagram or an idle read.
pub open spec fn inbound_ends(step: InboundStep) -> bool {
    step == InboundStep::Closed || step == InboundStep::SocketClosed || step
        == InboundStep::Cancelled
}

/// The rounds after which the outbound pump ends: never after a snapshot
/// that could not be encoded.
pub open spec fn outbound_ends(step: OutboundStep) -> bool {
    step is Closed || step is Cancelled
}

impl InboundStep {
    /// Whether the inbound pump ends after this round.
    pub fn ends_pump(&self) -> (res: bool)
        ensures
            res == inbound_ends(*self),
    {
        match self {
            InboundStep::Closed | InboundStep::SocketClosed | InboundStep::Cancelled => true,
            _ => false,
        }
    }
}

impl OutboundStep {
    /// Whether the outbound pump ends after this round.
    pub fn ends_pump(&self) -> (res: bool)
        ensures
            res == outbound_ends(*self),
    {
        match self {
            OutboundStep::Closed | OutboundStep::Cancelled => true,
            _ => false,
        }
    }
}

/// The views of a list of snapshots.
pub open spec fn snapshots_of(states: Seq<GameState>) -> Seq<Snapshot> {
    Seq::new(states.len(), |i: int| states[i]@)
}

/// The contents of a list of datagrams.
pub open spec fn bytes_of(datagrams: Seq<Vec<u8>>) -> Seq<Seq<u8>> {
    Seq::new(datagrams.len(), |i: int| datagrams[i]@)
}

/// The snapshots that the inbound pump delivers for `datagrams`, in order:
/// one for each well-formed packet.
pub open spec fn accepted(datagrams: Seq<Seq<u8>>) -> Seq<Snapshot>
    decreases datagrams.len(),
{
    if datagrams.len() == 0 {
        Seq::empty()
    } else {
        let earlier = accepted(datagrams.drop_last());
        match parse_image(datagrams.last()) {
            Some(s) => earlier.push(s),
            None => earlier,
        }
    }
}

/// The datagrams that the outbound pump sends for `states`, in order: one
/// for each snapshot that can be encoded.
pub open spec fn framed(states: Seq<Snapshot>) -> Seq<Seq<u8>>
    decreases states.len(),
{
    if states.len() == 0 {
        Seq::empty()
    } else {
        let earlier = framed(states.drop_last());
        if encodable(states.last()) {
            earlier.push(wire_image(states.last()))
        } else {
            earlier
        }
    }
}

/// The snapshot of the local peer `oid` for the tick numbered `frame`.
pub fn local_snapshot(oid: &String, frame: u32, motion: PeerState) -> (res: GameState)
    ensures
        res@ == (Snapshot {
            oid: oid@,
            frame,
            x_bits: motion.x_bits,
            y_bits: motion.y_bits,
            vx_bits: motion.vx_bits,
            vy_bits: motion.vy_bits,
            is_jumping: motion.is_jumping,
        }),
{
    GameState {
        oid: oid.clone(),
        frame,
        x_bits: motion.x_bits,
        y_bits: motion.y_bits,
        vx_bits: motion.vx_bits,
        vy_bits: motion.vy_bits,
        is_jumping: motion.is_jumping,
    }
}

/// The frame number after `frame`; the counter wraps around.
pub open spec fn frame_after(frame: u32) -> u32 {
    if frame == u32::MAX {
        0u32
    } else {
        (frame + 1) as u32
    }
}

/// Queues the local peer's snapshot for the current tick and moves the frame
/// counter on.  The counter advances whether or not the queue took the
/// snapshot; the result tells whether it did.
pub fn sync_local_state(
    tx: &Sender<GameState>,
    oid: &String,
    frame: &mut u32,
    motion: PeerState,
) -> (taken: bool)
    ensures
        *final(frame) == frame_after(*old(frame)),
{
    let state = local_snapshot(oid, *frame, motion);
    *frame = if *frame == u32::MAX {
        0u32
    } else {
        *frame + 1
    };
    queue_send(tx, state)
}

/// The snapshot that a received datagram carries, if any.  A datagram of the
/// wrong length, or one whose fields do not parse, carries none.
pub fn accept_datagram(datagram: &[u8]) -> (res: Option<GameState>)
    ensures
        match parse_image(datagram@) {
            Some(s) => res is Some && res->0@ == s,
            None => res is None,
        },
{
    match GameStatePacket::from_bytes(datagram) {
        Ok(packet) => Some(packet.0),
        Err(_) => None,
    }
}

/// The bytes to send for one snapshot.
pub fn outbound_datagram(state: GameState) -> (res: Result<Vec<u8>, NetError>)
    ensures
        encodable(state@) ==> res is Ok && res->Ok_0@ == wire_image(state@),
        !encodable(state@) ==> res == Err::<Vec<u8>, NetError>(NetError::Serialization),
{
    GameStatePacket(state).to_bytes()
}

/// The inbound pump's report once the queue has answered.
pub fn delivery_step(taken: bool) -> (res: InboundStep)
    ensures
        res == if taken {
            InboundStep::Delivered
        } else {
            InboundStep::Closed
        },
{
    if taken {
        InboundStep::Delivered
    } else {
        InboundStep::Closed
    }
}

/// One round of the inbound pump, for what the socket brought.  A pump
/// that was told to stop does nothing more.  A closed socket ends the pump
/// and an idle read does not.  A malformed datagram is dropped; a
/// well-formed one is put on the inbound queue, waiting while the queue is
/// full.
pub fn relay_inbound(tx: &Sender<GameState>, read: &SocketRead, cancelled: bool) -> (res:
    InboundStep)
    ensures
        cancelled ==> res == InboundStep::Cancelled,
        !cancelled ==> match *read {
            SocketRead::Closed => res == InboundStep::SocketClosed,
            SocketRead::TimedOut => res == InboundStep::Idle,
            SocketRead::Datagram(d) => if parse_image(d@) is None {
                res == InboundStep::Discarded
            } else {
                res == InboundStep::Delivered || res == InboundStep::Closed
            },
        },
{
    if cancelled {
        return InboundStep::Cancelled;
    }
    match read {
        SocketRead::Closed => InboundStep::SocketClosed,
        SocketRead::TimedOut => InboundStep::Idle,
        SocketRead::Datagram(d) => match accept_datagram(d.as_slice()) {
            None => InboundStep::Discarded,
            Some(state) => delivery_step(queue_send(tx, state)),
        },
    }
}

/// The outbound pump's next action for what the queue handed over: `None`
/// stands for a queue whose producer is gone.
pub fn outbound_step(next: Option<GameState>) -> (res: OutboundStep)
    ensures
        match next {
            None => res == OutboundStep::Closed,
            Some(state) => if encodable(state@) {
                res is Send && res->Send_0@ == wire_image(state@)
            } else {
                res == OutboundStep::Skip(NetError::Serialization)
            },
        },
{
    match next {
        None => OutboundStep::Closed,
        Some(state) => match outbound_datagram(state) {
            Ok(bytes) => OutboundStep::Send(bytes),
            Err(e) => OutboundStep::Skip(e),
        },
    }
}

/// One round of the outbound pump.  A pump that was told to stop does
/// nothing more; otherwise it waits for the next snapshot on the outbound
/// queue and says what to do with it.  Whatever arrives, bytes handed out
/// for sending are one well-formed packet.
pub fn next_outbound(rx: &Receiver<GameState>, cancelled: bool) -> (res: OutboundStep)
    ensures
        cancelled ==> res == OutboundStep::Cancelled,
        !cancelled ==> !(res is Cancelled),
        res is Send ==> res->Send_0@.len() == PACKET_SIZE && parse_image(res->Send_0@) is Some,
        res is Skip ==> res->Skip_0 == NetError::Serialization,
{
    if cancelled {
        return OutboundStep::Cancelled;
    }
    let next = queue_recv(rx);
    proof {
        if next is Some && encodable(next->0@) {
            lemma_decode_inverts_encode(next->0@);
        }
    }
    outbound_step(next)
}

/// Everything the inbound pump would deliver for a run of datagrams.
pub fn decode_datagrams(datagrams: &[Vec<u8>]) -> (res: Vec<GameState>)
    ensures
        snapshots_of(res@) == accepted(bytes_of(datagrams@)),
{
    let ghost all = bytes_of(datagrams@);
    let mut out: Vec<GameState> = Vec::new();
    let mut i: usize = 0;
    while i < datagrams.len()
        invariant
            i <= datagrams@.len(),
            all == bytes_of(datagrams@),
            snapshots_of(out@) == accepted(all.take(i as int)),
        decreases datagrams@.len() - i,
    {
        assert(all.take(i + 1).drop_last() =~= all.take(i as int));
        match accept_datagram(datagrams[i].as_slice()) {
            Some(state) => {
                out.push(state);
            },
            None => {},
        }
        i += 1;
    }
    assert(all.take(i as int) =~= all);
    out
}

/// Everything the outbound pump would send for a run of snapshots.
pub fn encode_snapshots(states: &[GameState]) -> (res: Vec<Vec<u8>>)
    ensures
        bytes_of(res@) == framed(snapshots_of(states@)),
{
    let ghost all = snapshots_of(states@);
    let mut out: Vec<Vec<u8>> = Vec::new();
    let mut i: usize = 0;
    while i < states.len()
        invariant
            i <= states@.len(),
            all == snapshots_of(states@),
            bytes_of(out@) == framed(all.take(i as int)),
        decreases states@.len() - i,
    {
        assert(all.take(i + 1).drop_last() =~= all.take(i as int));
        match GameStatePacket::encode(&states[i]) {
            Ok(bytes) => {
                out.push(bytes);
            },
            Err(_) => {},
        }
        i += 1;
    }
    assert(all.take(i as int) =~= all);
    out
}

/// What is delivered for two runs of datagrams, one after the other, is what
/// is delivered for the first followed by what is delivered for the second.
pub proof fn lemma_accepted_concat(a: Seq<Seq<u8>>, b: Seq<Seq<u8>>)
    ensures
        accepted(a + b) == accepted(a) + accepted(b),
    decreases b.len(),
{
    if b.len() > 0 {
        assert((a + b).drop_last() =~= a + b.drop_last());
        lemma_accepted_concat(a, b.drop_last());
    }
}

/// A malformed datagram, and so any datagram whose length is not
/// `PACKET_SIZE`, leaves no trace: the datagrams before and after it are
/// delivered as if it had never arrived.
pub proof fn lemma_malformed_datagram_is_skipped(
    before: Seq<Seq<u8>>,
    bad: Seq<u8>,
    after: Seq<Seq<u8>>,
)
    requires
        parse_image(bad) is None,
    ensures
        accepted(before + seq![bad] + after) == accepted(before) + accepted(after),
{
    lemma_accepted_concat(before + seq![bad], after);
    lemma_accepted_concat(before, seq![bad]);
    assert(seq![bad].drop_last() =~= Seq::<Seq<u8>>::empty());
    assert(accepted(Seq::<Seq<u8>>::empty()) =~= Seq::<Snapshot>::empty());
}

/// When every snapshot can be encoded, the outbound pump sends exactly one
/// datagram for each, in the order in which they were queued.
pub proof fn lemma_one_datagram_per_snapshot(states: Seq<Snapshot>)
    requires
        forall|i: int| 0 <= i < states.len() ==> encodable(#[trigger] states[i]),
    ensures
        framed(states).len() == states.len(),
        forall|i: int| 0 <= i < states.len() ==> #[trigger] framed(states)[i] == wire_image(states[i]),
    decreases states.len(),
{
    if states.len() > 0 {
        lemma_one_datagram_per_snapshot(states.drop_last());
    }
}

/// What one peer's outbound pump sends, the other's inbound pump delivers
/// unchanged, when every snapshot can be encoded and nothing is lost on the
/// way.
pub proof fn lemma_relay_round_trip(states: Seq<Snapshot>)
    requires
        forall|i: int| 0 <= i < states.len() ==> encodable(#[trigger] states[i]),
    ensures
        accepted(framed(states)) == states,
    decreases states.len(),
{
    if states.len() > 0 {
        lemma_relay_round_trip(states.drop_last());
        lemma_decode_inverts_encode(states.last());
        assert(framed(states).drop_last() =~= framed(states.drop_last()));
    }
}

} // verus!
