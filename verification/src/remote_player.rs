//! The table of remote peers: for each peer identifier, the motion state of
//! the latest snapshot received from it.
//!
//! Entries are never removed, and a peer's own snapshots never enter its
//! table.  The frame counter of a snapshot is not consulted.

use vstd::prelude::*;
use crossbeam_channel::Receiver;
use crate::packet_handler::{GameState, Snapshot};
use crate::transport::{queue_try_recv, QUEUE_CAPACITY};

verus! {

/// Position, velocity and jump flag of a peer; the numbers are the bit
/// patterns of single-precision values.
#[derive(Debug, Clone, Copy, PartialEq, Eq, Structural)]
pub struct PeerState {
    pub x_bits: u32,
    pub y_bits: u32,
    pub vx_bits: u32,
    pub vy_bits: u32,
    pub is_jumping: bool,
}

/// The part of a snapshot that the table keeps.
pub open spec fn motion_of(s: Snapshot) -> PeerState {
    PeerState {
        x_bits: s.x_bits,
        y_bits: s.y_bits,
        vx_bits: s.vx_bits,
        vy_bits: s.vy_bits,
        is_jumping: s.is_jumping,
    }
}

/// The table after one snapshot has been taken in: a snapshot of the local
/// peer changes nothing, any other replaces what was known of its peer.
pub open spec fn table_after(
    table: Map<Seq<char>, PeerState>,
    local_oid: Seq<char>,
    s: Snapshot,
) -> Map<Seq<char>, PeerState> {
    if s.oid == local_oid {
        table
    } else {
        table.insert(s.oid, motion_of(s))
    }
}

/// The table after a run of snapshots has been taken in, in order.
pub open spec fn table_after_all(
    table: Map<Seq<char>, PeerState>,
    local_oid: Seq<char>,
    updates: Seq<Snapshot>,
) -> Map<Seq<char>, PeerState>
    decreases updates.len(),
{
    if updates.len() == 0 {
        table
    } else {
        table_after(
            table_after_all(table, local_oid, updates.drop_last()),
            local_oid,
            updates.last(),
        )
    }
}

/// Whether any snapshot of a run comes from a peer other than the local one.
pub open spec fn holds_remote(local_oid: Seq<char>, updates: Seq<Snapshot>) -> bool {
    exists|i: int| 0 <= i < updates.len() && (#[trigger] updates[i]).oid != local_oid
}

/// Taking in a snapshot never removes a peer from the table and never adds
/// the local peer to it.
pub proof fn lemma_table_only_grows(
    table: Map<Seq<char>, PeerState>,
    local_oid: Seq<char>,
    s: Snapshot,
)
    ensures
        table.dom().subset_of(table_after(table, local_oid, s).dom()),
        table_after(table, local_oid, s).contains_key(local_oid) == table.contains_key(
            local_oid,
        ),
        s.oid != local_oid ==> table_after(table, local_oid, s)[s.oid] == motion_of(s),
{
}

/// However many snapshots are taken in, no peer leaves the table and the
/// local peer does not enter it.
pub proof fn lemma_table_only_grows_over_a_run(
    table: Map<Seq<char>, PeerState>,
    local_oid: Seq<char>,
    updates: Seq<Snapshot>,
)
    ensures
        table.dom().subset_of(table_after_all(table, local_oid, updates).dom()),
        table_after_all(table, local_oid, updates).contains_key(local_oid) == table.contains_key(
            local_oid,
        ),
    decreases updates.len(),
{
    if updates.len() > 0 {
        lemma_table_only_grows_over_a_run(table, local_oid, updates.drop_last());
        lemma_table_only_grows(
            table_after_all(table, local_oid, updates.drop_last()),
            local_oid,
            updates.last(),
        );
    }
}

/// One row of the table.
#[derive(Debug, Clone, PartialEq, Eq)]
pub struct PeerEntry {
    pub oid: String,
    pub state: PeerState,
}

/// Latest known state of every remote peer.
#[derive(Debug, Clone)]
pub struct RemotePlayerData {
    players: Vec<PeerEntry>,
    initialized: bool,
}

/// `k` is the key of row `i`.
pub open spec fn keyed_at(rows: Seq<PeerEntry>, k: Seq<char>, i: int) -> bool {
    0 <= i < rows.len() && rows[i].oid@ == k
}

/// No identifier occurs in two rows.
pub open spec fn distinct_keys(rows: Seq<PeerEntry>) -> bool {
    forall|i: int, j: int|
        0 <= i < rows.len() && 0 <= j < rows.len() && i != j ==> #[trigger] rows[i].oid@
            != #[trigger] rows[j].oid@
}

/// The row that holds `k`.
pub open spec fn row_of(rows: Seq<PeerEntry>, k: Seq<char>) -> int {
    choose|i: int| keyed_at(rows, k, i)
}

/// The mapping that the rows stand for.
pub open spec fn table_of(rows: Seq<PeerEntry>) -> Map<Seq<char>, PeerState> {
    Map::new(
        |k: Seq<char>| exists|i: int| keyed_at(rows, k, i),
        |k: Seq<char>| rows[row_of(rows, k)].state,
    )
}

proof fn lemma_row_of(rows: Seq<PeerEntry>, i: int)
    requires
        distinct_keys(rows),
        0 <= i < rows.len(),
    ensures
        row_of(rows, rows[i].oid@) == i,
        table_of(rows).contains_key(rows[i].oid@),
        table_of(rows)[rows[i].oid@] == rows[i].state,
{
    assert(keyed_at(rows, rows[i].oid@, i));
}

proof fn lemma_table_after_replace(rows: Seq<PeerEntry>, i: int, entry: PeerEntry)
    requires
        distinct_keys(rows),
        0 <= i < rows.len(),
        entry.oid@ == rows[i].oid@,
    ensures
        distinct_keys(rows.update(i, entry)),
        table_of(rows.update(i, entry)) == table_of(rows).insert(entry.oid@, entry.state),
{
    let next = rows.update(i, entry);
    let want = table_of(rows).insert(entry.oid@, entry.state);
    assert forall|k: Seq<char>| table_of(next).contains_key(k) <==> want.contains_key(k) by {
        if table_of(next).contains_key(k) {
            let j = choose|j: int| keyed_at(next, k, j);
            assert(keyed_at(rows, k, j));
        }
        if want.contains_key(k) {
            if k == entry.oid@ {
                assert(keyed_at(next, k, i));
            } else {
                let j = choose|j: int| keyed_at(rows, k, j);
                assert(keyed_at(next, k, j));
            }
        }
    }
    assert forall|k: Seq<char>| table_of(next).contains_key(k) implies table_of(next)[k]
        == want[k] by {
        let j = choose|j: int| keyed_at(next, k, j);
        lemma_row_of(next, j);
        lemma_row_of(rows, j);
    }
}

proof fn lemma_table_after_push(rows: Seq<PeerEntry>, entry: PeerEntry)
    requires
        distinct_keys(rows),
        forall|i: int| 0 <= i < rows.len() ==> (#[trigger] rows[i]).oid@ != entry.oid@,
    ensures
        distinct_keys(rows.push(entry)),
        table_of(rows.push(entry)) == table_of(rows).insert(entry.oid@, entry.state),
{
    let next = rows.push(entry);
    let want = table_of(rows).insert(entry.oid@, entry.state);
    assert forall|k: Seq<char>| table_of(next).contains_key(k) <==> want.contains_key(k) by {
        if table_of(next).contains_key(k) {
            let j = choose|j: int| keyed_at(next, k, j);
            if j < rows.len() {
                assert(keyed_at(rows, k, j));
            }
        }
        if want.contains_key(k) {
            if k == entry.oid@ {
                assert(keyed_at(next, k, rows.len() as int));
            } else {
                let j = choose|j: int| keyed_at(rows, k, j);
                assert(keyed_at(next, k, j));
            }
        }
    }
    assert forall|k: Seq<char>| table_of(next).contains_key(k) implies table_of(next)[k]
        == want[k] by {
        let j = choose|j: int| keyed_at(next, k, j);
        lemma_row_of(next, j);
        if j < rows.len() {
            lemma_row_of(rows, j);
        }
    }
}

impl View for RemotePlayerData {
    type V = Map<Seq<char>, PeerState>;

    closed spec fn view(&self) -> Map<Seq<char>, PeerState> {
        table_of(self.players@)
    }
}

impl RemotePlayerData {
    /// The table is well formed: no peer has two rows.
    pub closed spec fn wf(&self) -> bool {
        distinct_keys(self.players@)
    }

    /// Whether any remote snapshot has been taken in yet.
    pub closed spec fn is_initialized(&self) -> bool {
        self.initialized
    }

    /// The number of rows.
    pub closed spec fn spec_len(&self) -> nat {
        self.players@.len()
    }

    /// An empty table.
    pub fn new() -> (res: RemotePlayerData)
        ensures
            res.wf(),
            res@ == Map::<Seq<char>, PeerState>::empty(),
            !res.is_initialized(),
            res.spec_len() == 0,
    {
        RemotePlayerData { players: Vec::new(), initialized: false }
    }

    /// Whether any remote snapshot has been taken in yet.
    pub fn initialized(&self) -> (res: bool)
        ensures
            res == self.is_initialized(),
    {
        self.initialized
    }

    /// The number of peers in the table.
    pub fn len(&self) -> (res: usize)
        ensures
            res == self.spec_len(),
    {
        self.players.len()
    }

    fn find(&self, oid: &String) -> (res: Option<usize>)
        requires
            self.wf(),
        ensures
            match res {
                Some(i) => keyed_at(self.players@, oid@, i as int),
                None => forall|i: int|
                    0 <= i < self.players@.len() ==> (#[trigger] self.players@[i]).oid@ != oid@,
            },
    {
        let mut i: usize = 0;
        while i < self.players.len()
            invariant
                i <= self.players@.len(),
                forall|j: int| 0 <= j < i ==> (#[trigger] self.players@[j]).oid@ != oid@,
            decreases self.players@.len() - i,
        {
            if self.players[i].oid == *oid {
                return Some(i);
            }
            i += 1;
        }
        None
    }

    /// The latest state of the peer `oid`, if it has been heard of.
    pub fn get(&self, oid: &String) -> (res: Option<PeerState>)
        requires
            self.wf(),
        ensures
            res == if self@.contains_key(oid@) {
                Some(self@[oid@])
            } else {
                None
            },
    {
        match self.find(oid) {
            Some(i) => {
                proof {
                    lemma_row_of(self.players@, i as int);
                }
                Some(self.players[i].state)
            },
            None => {
                None
            },
        }
    }

    /// Every row of the table, for a consumer that walks all peers.
    pub fn entries(&self) -> (res: Vec<PeerEntry>)
        requires
            self.wf(),
        ensures
            distinct_keys(res@),
            table_of(res@) == self@,
            res@.len() == self.spec_len(),
    {
        let mut out: Vec<PeerEntry> = Vec::new();
        let mut i: usize = 0;
        while i < self.players.len()
            invariant
                i <= self.players@.len(),
                out@ == self.players@.take(i as int),
            decreases self.players@.len() - i,
        {
            let row = &self.players[i];
            out.push(PeerEntry { oid: row.oid.clone(), state: row.state });
            i += 1;
        }
        assert(self.players@.take(i as int) =~= self.players@);
        out
    }

    /// Takes in one snapshot from the inbound queue.  A snapshot of the local
    /// peer changes nothing; any other replaces what was known of its peer.
    pub fn apply_update(&mut self, local_oid: &String, state: &GameState)
        requires
            old(self).wf(),
        ensures
            final(self).wf(),
            final(self)@ == table_after(old(self)@, local_oid@, state@),
            final(self).is_initialized() == (old(self).is_initialized() || state.oid@
                != local_oid@),
            final(self).spec_len() == old(self).spec_len() + (if state.oid@ != local_oid@
                && !old(self)@.contains_key(state.oid@) {
                1nat
            } else {
                0nat
            }),
    {
        if state.oid == *local_oid {
            return ;
        }
        let entry = PeerEntry {
            oid: state.oid.clone(),
            state: PeerState {
                x_bits: state.x_bits,
                y_bits: state.y_bits,
                vx_bits: state.vx_bits,
                vy_bits: state.vy_bits,
                is_jumping: state.is_jumping,
            },
        };
        match self.find(&state.oid) {
            Some(i) => {
                proof {
                    lemma_table_after_replace(self.players@, i as int, entry);
                    lemma_row_of(self.players@, i as int);
                }
                self.players.set(i, entry);
            },
            None => {
                proof {
                    lemma_table_after_push(self.players@, entry);
                }
                self.players.push(entry);
            },
        }
        self.initialized = true;
    }
}

impl Default for RemotePlayerData {
    fn default() -> (res: RemotePlayerData)
        ensures
            res.wf(),
            res@ == Map::<Seq<char>, PeerState>::empty(),
            !res.is_initialized(),
    {
        RemotePlayerData::new()
    }
}

/// Takes in what is waiting on the inbound queue, at most one queue-full in
/// one call, and returns how many snapshots were taken off the queue.  The
/// table afterwards is the table before with that many snapshots taken in,
/// in the order in which they were queued; so the local peer never enters
/// the table and no peer ever leaves it.
pub fn receive_remote_updates(
    remote_data: &mut RemotePlayerData,
    rx: &Receiver<GameState>,
    local_oid: &String,
) -> (taken: usize)
    requires
        old(remote_data).wf(),
    ensures
        final(remote_data).wf(),
        taken <= QUEUE_CAPACITY,
        exists|updates: Seq<Snapshot>|
            updates.len() == taken && final(remote_data)@ == #[trigger] table_after_all(
                old(remote_data)@,
                local_oid@,
                updates,
            ) && final(remote_data).is_initialized() == (old(remote_data).is_initialized()
                || holds_remote(local_oid@, updates)),
        taken == 0 ==> final(remote_data).is_initialized() == old(remote_data).is_initialized(),
        old(remote_data).is_initialized() ==> final(remote_data).is_initialized(),
        old(remote_data)@.dom().subset_of(final(remote_data)@.dom()),
        final(remote_data)@.contains_key(local_oid@) == old(remote_data)@.contains_key(
            local_oid@,
        ),
{
    let mut taken: usize = 0;
    let ghost mut seen: Seq<Snapshot> = Seq::empty();
    while taken < QUEUE_CAPACITY
        invariant
            remote_data.wf(),
            taken <= QUEUE_CAPACITY,
            seen.len() == taken,
            remote_data@ == table_after_all(old(remote_data)@, local_oid@, seen),
            remote_data.is_initialized() == (old(remote_data).is_initialized() || holds_remote(
                local_oid@,
                seen,
            )),
        decreases QUEUE_CAPACITY - taken,
    {
        match queue_try_recv(rx) {
            None => {
                proof {
                    lemma_table_only_grows_over_a_run(old(remote_data)@, local_oid@, seen);
                }
                return taken;
            },
            Some(state) => {
                remote_data.apply_update(local_oid, &state);
                proof {
                    let longer = seen.push(state@);
                    assert(longer.drop_last() =~= seen);
                    if state.oid@ != local_oid@ {
                        assert(longer[seen.len() as int].oid != local_oid@);
                    }
                    if holds_remote(local_oid@, seen) {
                        let i = choose|i: int|
                            0 <= i < seen.len() && (#[trigger] seen[i]).oid != local_oid@;
                        assert(longer[i].oid != local_oid@);
                    }
                    if holds_remote(local_oid@, longer) && state.oid@ == local_oid@ {
                        let i = choose|i: int|
                            0 <= i < longer.len() && (#[trigger] longer[i]).oid != local_oid@;
                        assert(seen[i].oid != local_oid@);
                    }
                    seen = longer;
                }
            },
        }
        taken += 1;
    }
    proof {
        lemma_table_only_grows_over_a_run(old(remote_data)@, local_oid@, seen);
    }
    taken
}

} // verus!
