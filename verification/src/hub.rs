//! The broadcast hub: the single authoritative owner of "who is connected
//! and where".
//!
//! The hub tracks every connected client with the position last broadcast on
//! its behalf, accumulates pending position updates (at most one per client,
//! last write wins) and pending removals, and on each flush computes the
//! per-recipient diff frames. Clients that moved since the last flush get a
//! personalized frame with their own entry excluded; idle clients share one
//! frame with the full picture. The hub performs no I/O and keeps no clock:
//! its operations return the frames to deliver and whether the scheduler
//! should be armed, and the server around it does the sending and timing.
//! The caller must serialize all calls on one hub — mutation of shared state
//! is single-writer by construction.

use crate::codec::diff_bytes;
use crate::codec::encode_diff;
use crate::codec::encode_update_section;
use crate::codec::update_section;
use crate::control::myid_bytes;
use crate::control::myid_message;
use crate::position::origin_position;
use crate::position::position_eq;
use crate::position::same_point;
use crate::position::Position;
use vstd::pervasive::VecAdditionalExecFns;
use vstd::prelude::*;

verus! {

/// One connected client: its id and the position last actually broadcast on
/// its behalf. The outbound delivery handle lives with the server, keyed by
/// the id.
#[derive(Clone, Copy, Debug, PartialEq, Eq, Structural)]
pub struct UserRec {
    pub id: u32,
    pub last_pos: Position,
}

/// The hub state: the id counter, the connected clients, and the two pending
/// diff sets that the next flush will consume.
pub struct Hub {
    pub latest_id: u32,
    pub users: Vec<UserRec>,
    pub pending_updates: Vec<(u32, Position)>,
    pub pending_removes: Vec<u32>,
}

/// The mathematical state of a hub.
#[verifier::ext_equal]
pub ghost struct HubView {
    pub latest_id: u32,
    pub users: Seq<UserRec>,
    pub pending_updates: Seq<(u32, Position)>,
    pub pending_removes: Seq<u32>,
}

impl View for Hub {
    type V = HubView;

    open spec fn view(&self) -> HubView {
        HubView {
            latest_id: self.latest_id,
            users: self.users@,
            pending_updates: self.pending_updates@,
            pending_removes: self.pending_removes@,
        }
    }
}

impl HubView {
    /// `id` belongs to a currently connected client.
    pub open spec fn is_connected(self, id: u32) -> bool {
        exists|i: int| 0 <= i < self.users.len() && (#[trigger] self.users[i]).id == id
    }

    /// `id` has a pending position update.
    pub open spec fn is_pending(self, id: u32) -> bool {
        exists|i: int|
            0 <= i < self.pending_updates.len() && (#[trigger] self.pending_updates[i]).0 == id
    }

    /// The position last broadcast on behalf of connected client `id`.
    pub open spec fn last_broadcast_position(self, id: u32) -> Position
        recommends
            self.is_connected(id),
    {
        let i = choose|i: int| 0 <= i < self.users.len() && (#[trigger] self.users[i]).id == id;
        self.users[i].last_pos
    }

    /// The pending position of client `id`.
    pub open spec fn pending_position(self, id: u32) -> Position
        recommends
            self.is_pending(id),
    {
        let i = choose|i: int|
            0 <= i < self.pending_updates.len() && (#[trigger] self.pending_updates[i]).0 == id;
        self.pending_updates[i].1
    }

    /// The hub invariant: client ids are unique and never exceed the id
    /// counter; at most one pending update per client, each for a connected
    /// client; every position in the data model lies in [0.0, 1.0]; and the
    /// count of clients ever granted an id bounds the live table plus the
    /// pending removals, which keeps every section count within 32 bits.
    pub open spec fn wf(self) -> bool {
        &&& forall|i: int, j: int|
            0 <= i < j < self.users.len() ==> (#[trigger] self.users[i]).id != (
            #[trigger] self.users[j]).id
        &&& forall|i: int|
            0 <= i < self.users.len() ==> (#[trigger] self.users[i]).id <= self.latest_id
                && self.users[i].last_pos.wf()
        &&& forall|i: int, j: int|
            0 <= i < j < self.pending_updates.len() ==> (#[trigger] self.pending_updates[i]).0 != (
            #[trigger] self.pending_updates[j]).0
        &&& forall|i: int|
            0 <= i < self.pending_updates.len() ==> self.is_connected(
                (#[trigger] self.pending_updates[i]).0,
            ) && self.pending_updates[i].1.wf()
        &&& self.users.len() + self.pending_removes.len() <= self.latest_id
    }
}

/// The state of a freshly constructed hub: no clients, nothing pending, ids
/// start above zero.
pub open spec fn initial_hub() -> HubView {
    HubView {
        latest_id: 0u32,
        users: Seq::empty(),
        pending_updates: Seq::empty(),
        pending_removes: Seq::empty(),
    }
}

/// The state after a connect: the counter advanced, the new client appended
/// at the origin position, pending sets untouched.
pub open spec fn sp_connect(v: HubView) -> HubView
    recommends
        v.latest_id < u32::MAX,
{
    HubView {
        latest_id: (v.latest_id + 1) as u32,
        users: v.users.push(
            UserRec { id: (v.latest_id + 1) as u32, last_pos: Position::origin() },
        ),
        pending_updates: v.pending_updates,
        pending_removes: v.pending_removes,
    }
}

/// The entries of the connect-time snapshot: every already-connected
/// client's id with its last broadcast position, in table order.
pub open spec fn snapshot_entry_fn() -> spec_fn(UserRec) -> (u32, Position) {
    |u: UserRec| (u.id, u.last_pos)
}

/// Keeps every pending entry not belonging to `id`.
pub open spec fn ne_id_pred(id: u32) -> spec_fn((u32, Position)) -> bool {
    |e: (u32, Position)| e.0 != id
}

/// Keeps every client record not belonging to `id`.
pub open spec fn user_ne_id_pred(id: u32) -> spec_fn(UserRec) -> bool {
    |u: UserRec| u.id != id
}

/// Replaces the pending entry of `id` with position `p`.
pub open spec fn overwrite_fn(id: u32, p: Position) -> spec_fn((u32, Position)) -> (u32, Position) {
    |e: (u32, Position)|
        if e.0 == id {
            (id, p)
        } else {
            e
        }
}

/// The state after `update_position(id, p)`. An unknown id changes nothing;
/// a position equal (as a point) to the client's last broadcast position
/// cancels its pending entry; otherwise the pending entry is written, last
/// write wins.
pub open spec fn sp_update_state(v: HubView, id: u32, p: Position) -> HubView {
    if !v.is_connected(id) {
        v
    } else if same_point(p, v.last_broadcast_position(id)) {
        HubView {
            latest_id: v.latest_id,
            users: v.users,
            pending_updates: v.pending_updates.filter(ne_id_pred(id)),
            pending_removes: v.pending_removes,
        }
    } else if v.is_pending(id) {
        HubView {
            latest_id: v.latest_id,
            users: v.users,
            pending_updates: v.pending_updates.map_values(overwrite_fn(id, p)),
            pending_removes: v.pending_removes,
        }
    } else {
        HubView {
            latest_id: v.latest_id,
            users: v.users,
            pending_updates: v.pending_updates.push((id, p)),
            pending_removes: v.pending_removes,
        }
    }
}

/// `update_position(id, p)` arms the scheduler exactly when it writes a
/// pending entry: a connected client reporting a genuinely new point.
pub open spec fn sp_update_arms(v: HubView, id: u32, p: Position) -> bool {
    v.is_connected(id) && !same_point(p, v.last_broadcast_position(id))
}

/// The state after `disconnect(id)`. A connected client is removed from the
/// table, its pending update is dropped, and its id is queued for the next
/// remove section; an unknown id changes nothing.
pub open spec fn sp_disconnect_state(v: HubView, id: u32) -> HubView {
    if !v.is_connected(id) {
        v
    } else {
        HubView {
            latest_id: v.latest_id,
            users: v.users.filter(user_ne_id_pred(id)),
            pending_updates: v.pending_updates.filter(ne_id_pred(id)),
            pending_removes: v.pending_removes.push(id),
        }
    }
}

/// Nothing is pending: a flush has nothing to broadcast.
pub open spec fn nothing_pending(v: HubView) -> bool {
    v.pending_updates.len() == 0 && v.pending_removes.len() == 0
}

/// Keeps the clients with no pending update of their own: the idle
/// recipients of a flush.
pub open spec fn idle_pred(v: HubView) -> spec_fn(UserRec) -> bool {
    |u: UserRec| !v.is_pending(u.id)
}

/// The idle recipients of a flush, in table order.
pub open spec fn idle_recipients(v: HubView) -> Seq<UserRec> {
    v.users.filter(idle_pred(v))
}

/// The shared frame every idle client receives: the full update section and
/// the full remove section.
pub open spec fn idle_frame(v: HubView) -> Seq<u8> {
    diff_bytes(v.pending_updates, v.pending_removes)
}

/// Addresses the shared idle frame to one idle client.
pub open spec fn idle_delivery_fn(v: HubView) -> spec_fn(UserRec) -> (u32, Seq<u8>) {
    |u: UserRec| (u.id, idle_frame(v))
}

/// The deliveries to idle clients.
pub open spec fn sp_idle_deliveries(v: HubView) -> Seq<(u32, Seq<u8>)> {
    idle_recipients(v).map_values(idle_delivery_fn(v))
}

/// The update entries sent to updated client `id`: every pending update but
/// its own (self-exclusion).
pub open spec fn entries_excluding(v: HubView, id: u32) -> Seq<(u32, Position)> {
    v.pending_updates.filter(ne_id_pred(id))
}

/// A personalized frame has content exactly when another client's update or
/// some removal is pending; a client whose own update is the only pending
/// content receives nothing.
pub open spec fn personalized_nonempty(v: HubView) -> bool {
    v.pending_updates.len() > 1 || v.pending_removes.len() > 0
}

/// Builds the personalized delivery for one updated client.
pub open spec fn personal_delivery_fn(v: HubView) -> spec_fn((u32, Position)) -> (u32, Seq<u8>) {
    |e: (u32, Position)| (e.0, diff_bytes(entries_excluding(v, e.0), v.pending_removes))
}

/// The deliveries to updated clients, in pending order.
pub open spec fn sp_personal_deliveries(v: HubView) -> Seq<(u32, Seq<u8>)> {
    if personalized_nonempty(v) {
        v.pending_updates.map_values(personal_delivery_fn(v))
    } else {
        Seq::empty()
    }
}

/// Every delivery of one flush: the idle fan-out, then the personalized
/// frames.
pub open spec fn sp_flush_deliveries(v: HubView) -> Seq<(u32, Seq<u8>)> {
    if nothing_pending(v) {
        Seq::empty()
    } else {
        sp_idle_deliveries(v) + sp_personal_deliveries(v)
    }
}

/// Refreshes one client record at a flush: an updated client's last
/// broadcast position becomes its pending position.
pub open spec fn refresh_fn(v: HubView) -> spec_fn(UserRec) -> UserRec {
    |u: UserRec|
        if v.is_pending(u.id) {
            UserRec { id: u.id, last_pos: v.pending_position(u.id) }
        } else {
            u
        }
}

/// The state after a flush: refreshed records, both pending sets cleared.
/// An empty flush changes nothing.
pub open spec fn sp_flush_state(v: HubView) -> HubView {
    if nothing_pending(v) {
        v
    } else {
        HubView {
            latest_id: v.latest_id,
            users: v.users.map_values(refresh_fn(v)),
            pending_updates: Seq::empty(),
            pending_removes: Seq::empty(),
        }
    }
}

/// The byte-level view of a delivery list.
pub open spec fn deliveries_view(ds: Seq<(u32, Vec<u8>)>) -> Seq<(u32, Seq<u8>)> {
    ds.map_values(|d: (u32, Vec<u8>)| (d.0, d.1@))
}

/// Filtering keeps a sequence whole when the predicate holds everywhere.
proof fn lemma_filter_all_true<A>(s: Seq<A>, p: spec_fn(A) -> bool)
    requires
        forall|i: int| 0 <= i < s.len() ==> p(#[trigger] s[i]),
    ensures
        s.filter(p) == s,
    decreases s.len(),
{
    reveal(Seq::filter);
    if s.len() > 0 {
        assert forall|i: int| 0 <= i < s.drop_last().len() implies p(#[trigger] s.drop_last()[i]) by {
            assert(s.drop_last()[i] == s[i]);
        }
        lemma_filter_all_true(s.drop_last(), p);
        assert(p(s.last()));
        assert(s.drop_last().push(s.last()) =~= s);
    }
}

/// Filtering a sequence whose predicate fails at exactly one index removes
/// exactly that element.
proof fn lemma_filter_skip_one<A>(s: Seq<A>, p: spec_fn(A) -> bool, j: int)
    requires
        0 <= j < s.len(),
        !p(s[j]),
        forall|i: int| 0 <= i < s.len() && i != j ==> p(#[trigger] s[i]),
    ensures
        s.filter(p) == s.remove(j),
    decreases s.len(),
{
    reveal(Seq::filter);
    if j == s.len() - 1 {
        assert forall|i: int| 0 <= i < s.drop_last().len() implies p(#[trigger] s.drop_last()[i]) by {
            assert(s.drop_last()[i] == s[i]);
        }
        lemma_filter_all_true(s.drop_last(), p);
        assert(s.remove(j) =~= s.drop_last());
    } else {
        assert forall|i: int|
            0 <= i < s.drop_last().len() && i != j implies p(#[trigger] s.drop_last()[i]) by {
            assert(s.drop_last()[i] == s[i]);
        }
        assert(s.drop_last()[j] == s[j]);
        lemma_filter_skip_one(s.drop_last(), p, j);
        assert(p(s.last()));
        assert(s.filter(p) == s.drop_last().remove(j).push(s.last()));
        assert(s.drop_last().remove(j).push(s.last()) =~= s.remove(j));
    }
}

/// A duplicate-free sequence of ids drawn from another duplicate-free
/// sequence is no longer than it.
proof fn lemma_unique_ids_bound(a: Seq<u32>, b: Seq<u32>)
    requires
        a.no_duplicates(),
        forall|x: u32| a.contains(x) ==> b.contains(x),
    ensures
        a.len() <= b.len(),
{
    broadcast use vstd::seq_lib::seq_to_set_is_finite;
    broadcast use vstd::set::group_set_axioms;

    a.unique_seq_to_set();
    b.lemma_cardinality_of_set();
    assert forall|x: u32| a.to_set().contains(x) implies b.to_set().contains(x) by {
        assert(a.contains(x));
    }
    vstd::set_lib::lemma_len_subset(a.to_set(), b.to_set());
}

/// Pending updates never outnumber connected clients: each pending entry
/// belongs to a distinct connected client.
pub proof fn lemma_pending_bounded(v: HubView)
    requires
        v.wf(),
    ensures
        v.pending_updates.len() <= v.users.len(),
{
    let pids = v.pending_updates.map_values(|e: (u32, Position)| e.0);
    let uids = v.users.map_values(|u: UserRec| u.id);
    assert forall|i: int, j: int|
        (0 <= i < pids.len() && 0 <= j < pids.len() && i != j) implies pids[i] != pids[j] by {
        if i < j {
            assert(v.pending_updates[i].0 != v.pending_updates[j].0);
        } else {
            assert(v.pending_updates[j].0 != v.pending_updates[i].0);
        }
    }
    assert forall|x: u32| pids.contains(x) implies uids.contains(x) by {
        let i = choose|i: int| 0 <= i < pids.len() && pids[i] == x;
        assert(v.is_connected(v.pending_updates[i].0));
        let w = choose|w: int| 0 <= w < v.users.len() && (#[trigger] v.users[w]).id == x;
        assert(uids[w] == x);
    }
    lemma_unique_ids_bound(pids, uids);
}

/// What `Hub::connect` hands back for the new client.
pub struct ConnectOutcome {
    /// The id assigned to the new client.
    pub id: u32,
    /// The assigned-ID control message for the new client.
    pub hello: Vec<u8>,
    /// The snapshot frame for the new client; present exactly when at least
    /// one other client was already connected.
    pub snapshot: Option<Vec<u8>>,
}

impl Hub {
    /// Constructs an empty hub.
    pub fn new() -> (h: Hub)
        ensures
            h@ == initial_hub(),
            h@.wf(),
    {
        let h = Hub {
            latest_id: 0,
            users: Vec::new(),
            pending_updates: Vec::new(),
            pending_removes: Vec::new(),
        };
        proof {
            assert(h@ =~= initial_hub());
        }
        h
    }

    /// Registers a new connection: allocates the next id and returns it with
    /// the assigned-ID control message and — when at least one other client
    /// already exists — a snapshot of every current client's last broadcast
    /// position, so the newcomer need not wait for the next flush. The new
    /// client starts at the origin with nothing pending, so connecting never
    /// arms the scheduler. Exhaustion of the id space is the caller's fatal
    /// condition, excluded here.
    pub fn connect(&mut self) -> (out: ConnectOutcome)
        requires
            old(self)@.wf(),
            old(self)@.latest_id < u32::MAX,
        ensures
            final(self)@.wf(),
            final(self)@ == sp_connect(old(self)@),
            out.id == old(self)@.latest_id + 1,
            out.hello@ == myid_bytes(out.id),
            old(self)@.users.len() == 0 ==> out.snapshot is None,
            old(self)@.users.len() > 0 ==> (out.snapshot matches Some(m) && m@ == update_section(
                old(self)@.users.map_values(snapshot_entry_fn()),
            )),
    {
        let ghost v0 = self@;
        self.latest_id = self.latest_id + 1;
        let id: u32 = self.latest_id;
        let hello: Vec<u8> = myid_message(id);
        let snapshot: Option<Vec<u8>> = if self.users.len() > 0 {
            let mut entries: Vec<(u32, Position)> = Vec::new();
            let mut i: usize = 0;
            while i < self.users.len()
                invariant
                    i <= self.users@.len(),
                    entries@ == self.users@.subrange(0, i as int).map_values(snapshot_entry_fn()),
                decreases self.users@.len() - i,
            {
                let u: UserRec = self.users[i];
                entries.push((u.id, u.last_pos));
                i = i + 1;
                proof {
                    assert(entries@ =~= self.users@.subrange(0, i as int).map_values(
                        snapshot_entry_fn(),
                    ));
                }
            }
            proof {
                assert(self.users@.subrange(0, self.users@.len() as int) =~= self.users@);
                assert(entries@.len() == v0.users.len());
            }
            Some(encode_update_section(&entries))
        } else {
            None
        };
        self.users.push(UserRec { id, last_pos: origin_position() });
        proof {
            assert(self@ =~= sp_connect(v0));
            assert forall|i: int| 0 <= i < self@.pending_updates.len() implies self@.is_connected(
                (#[trigger] self@.pending_updates[i]).0,
            ) && self@.pending_updates[i].1.wf() by {
                assert(v0.is_connected(v0.pending_updates[i].0));
                let w = choose|w: int|
                    0 <= w < v0.users.len() && (#[trigger] v0.users[w]).id == v0.pending_updates[i].0;
                assert(self@.users[w].id == self@.pending_updates[i].0);
            }
            assert(self@.wf());
        }
        ConnectOutcome { id, hello, snapshot }
    }

    /// Records a newly reported position for client `id` and says whether
    /// the scheduler must be armed. Reporting the point last broadcast for
    /// the client cancels any pending update of its own instead of queueing
    /// one. An unknown id is a no-op, so stale sessions never fault the hub.
    pub fn update_position(&mut self, id: u32, pos: Position) -> (arm: bool)
        requires
            old(self)@.wf(),
            pos.wf(),
        ensures
            final(self)@.wf(),
            final(self)@ == sp_update_state(old(self)@, id, pos),
            arm == sp_update_arms(old(self)@, id, pos),
    {
        let ghost v0 = self@;
        let ui: usize = match find_user(&self.users, id) {
            Some(i) => i,
            None => {
                proof {
                    assert(!v0.is_connected(id));
                }
                return false;
            },
        };
        proof {
            assert(v0.is_connected(id));
            let c = choose|c: int| 0 <= c < v0.users.len() && (#[trigger] v0.users[c]).id == id;
            assert(v0.users[c] == v0.users[ui as int]);
            assert(v0.last_broadcast_position(id) == v0.users[ui as int].last_pos);
        }
        let last: Position = self.users[ui].last_pos;
        if position_eq(&pos, &last) {
            match find_pending(&self.pending_updates, id) {
                Some(j) => {
                    proof {
                        assert forall|k: int|
                            0 <= k < v0.pending_updates.len() && k != j as int implies ne_id_pred(
                            id,
                        )(#[trigger] v0.pending_updates[k]) by {
                            if k < j as int {
                                assert(v0.pending_updates[k].0 != v0.pending_updates[j as int].0);
                            } else {
                                assert(v0.pending_updates[j as int].0 != v0.pending_updates[k].0);
                            }
                        }
                        lemma_filter_skip_one(v0.pending_updates, ne_id_pred(id), j as int);
                    }
                    self.pending_updates.remove(j);
                    proof {
                        assert(exists|j2: int|
                            0 <= j2 < v0.pending_updates.len() && self.pending_updates@
                                == v0.pending_updates.remove(j2)) by {
                            assert(self.pending_updates@ == v0.pending_updates.remove(j as int));
                        }
                    }
                },
                None => {
                    proof {
                        assert forall|k: int|
                            0 <= k < v0.pending_updates.len() implies ne_id_pred(id)(
                        #[trigger] v0.pending_updates[k]) by {}
                        lemma_filter_all_true(v0.pending_updates, ne_id_pred(id));
                    }
                },
            }
            proof {
                assert(self@ =~= sp_update_state(v0, id, pos));
                lemma_wf_after_pending_shrink(v0, self@);
            }
            false
        } else {
            match find_pending(&self.pending_updates, id) {
                Some(j) => {
                    self.pending_updates.set(j, (id, pos));
                    proof {
                        assert forall|k: int|
                            0 <= k < v0.pending_updates.len() implies v0.pending_updates.update(
                            j as int,
                            (id, pos),
                        )[k] == overwrite_fn(id, pos)(v0.pending_updates[k]) by {
                            if k != j {
                                assert(v0.pending_updates[k].0 != v0.pending_updates[j as int].0);
                            }
                        }
                        assert(self.pending_updates@ =~= v0.pending_updates.map_values(
                            overwrite_fn(id, pos),
                        ));
                    }
                },
                None => {
                    self.pending_updates.push((id, pos));
                    proof {
                        assert(!v0.is_pending(id));
                    }
                },
            }
            proof {
                assert(self@ =~= sp_update_state(v0, id, pos));
                assert forall|i: int, j: int|
                    0 <= i < j < self@.pending_updates.len() implies (
                #[trigger] self@.pending_updates[i]).0 != (#[trigger] self@.pending_updates[j]).0 by {
                    if j < v0.pending_updates.len() {
                        assert(v0.pending_updates[i].0 != v0.pending_updates[j].0);
                    } else {
                        assert(self@.pending_updates[j].0 == id);
                        assert(v0.pending_updates[i].0 != id);
                    }
                }
                assert forall|i: int|
                    0 <= i < self@.pending_updates.len() implies self@.is_connected(
                    (#[trigger] self@.pending_updates[i]).0,
                ) && self@.pending_updates[i].1.wf() by {
                    if i < v0.pending_updates.len() && self@.pending_updates[i]
                        == v0.pending_updates[i] {
                        assert(v0.is_connected(v0.pending_updates[i].0));
                    } else {
                        assert(self@.pending_updates[i].0 == id);
                        assert(self@.users[ui as int].id == id);
                    }
                }
                assert(self@.wf());
            }
            true
        }
    }

    /// Removes client `id`: drops its record and any pending update of its
    /// own, and queues its id for the next remove section. Disconnecting an
    /// id that is already gone is a no-op, so the call is idempotent.
    /// Returns whether the scheduler must be armed.
    pub fn disconnect(&mut self, id: u32) -> (arm: bool)
        requires
            old(self)@.wf(),
        ensures
            final(self)@.wf(),
            final(self)@ == sp_disconnect_state(old(self)@, id),
            arm == old(self)@.is_connected(id),
    {
        let ghost v0 = self@;
        let ui: usize = match find_user(&self.users, id) {
            Some(i) => i,
            None => {
                proof {
                    assert(!v0.is_connected(id));
                }
                return false;
            },
        };
        proof {
            assert(v0.is_connected(id));
            assert forall|k: int|
                0 <= k < v0.users.len() && k != ui as int implies user_ne_id_pred(id)(
                #[trigger] v0.users[k]) by {
                if k < ui as int {
                    assert(v0.users[k].id != v0.users[ui as int].id);
                } else {
                    assert(v0.users[ui as int].id != v0.users[k].id);
                }
            }
            lemma_filter_skip_one(v0.users, user_ne_id_pred(id), ui as int);
        }
        self.users.remove(ui);
        match find_pending(&self.pending_updates, id) {
            Some(j) => {
                proof {
                    assert forall|k: int|
                        0 <= k < v0.pending_updates.len() && k != j as int implies ne_id_pred(id)(
                    #[trigger] v0.pending_updates[k]) by {
                        if k < j as int {
                            assert(v0.pending_updates[k].0 != v0.pending_updates[j as int].0);
                        } else {
                            assert(v0.pending_updates[j as int].0 != v0.pending_updates[k].0);
                        }
                    }
                    lemma_filter_skip_one(v0.pending_updates, ne_id_pred(id), j as int);
                }
                self.pending_updates.remove(j);
                proof {
                    assert(exists|j2: int|
                        0 <= j2 < v0.pending_updates.len() && self.pending_updates@
                            == v0.pending_updates.remove(j2)) by {
                        assert(self.pending_updates@ == v0.pending_updates.remove(j as int));
                    }
                    assert forall|k: int|
                        0 <= k < self.pending_updates@.len() implies (
                    #[trigger] self.pending_updates@[k]).0 != id by {
                        let ok: int = if k < j as int {
                            k
                        } else {
                            k + 1
                        };
                        assert(self.pending_updates@[k] == v0.pending_updates[ok]);
                        assert(ne_id_pred(id)(v0.pending_updates[ok]));
                    }
                }
            },
            None => {
                proof {
                    assert forall|k: int|
                        0 <= k < v0.pending_updates.len() implies ne_id_pred(id)(
                    #[trigger] v0.pending_updates[k]) by {}
                    lemma_filter_all_true(v0.pending_updates, ne_id_pred(id));
                }
            },
        }
        self.pending_removes.push(id);
        proof {
            assert(self@ =~= sp_disconnect_state(v0, id));
            let nu = self@.users;
            assert forall|i: int, j: int|
                0 <= i < j < nu.len() implies (#[trigger] nu[i]).id != (#[trigger] nu[j]).id by {
                let oi: int = if i < ui as int {
                    i
                } else {
                    i + 1
                };
                let oj: int = if j < ui as int {
                    j
                } else {
                    j + 1
                };
                assert(nu[i] == v0.users[oi] && nu[j] == v0.users[oj]);
                assert(v0.users[oi].id != v0.users[oj].id);
            }
            assert forall|i: int|
                0 <= i < nu.len() implies (#[trigger] nu[i]).id <= self@.latest_id
                && nu[i].last_pos.wf() by {
                let oi: int = if i < ui as int {
                    i
                } else {
                    i + 1
                };
                assert(nu[i] == v0.users[oi]);
            }
            lemma_pending_entries_still_connected(v0, self.users@, self.pending_updates@, id, ui as int);
            assert(self@.wf());
        }
        true
    }

    /// Executes one flush: partitions the clients into idle and updated,
    /// addresses the shared full diff to every idle client and a
    /// personalized, self-excluding diff to every updated client (omitting
    /// frames that would be empty), refreshes every updated client's last
    /// broadcast position, and clears both pending sets. With nothing
    /// pending this is a no-op — an armed flush may fire after its only
    /// pending update was cancelled. Returns the frames to deliver, each
    /// addressed by client id: idle clients in table order, then updated
    /// clients in pending order.
    #[verifier::loop_isolation(false)]
    #[verifier::rlimit(60)]
    pub fn flush(&mut self) -> (out: Vec<(u32, Vec<u8>)>)
        requires
            old(self)@.wf(),
        ensures
            final(self)@.wf(),
            final(self)@ == sp_flush_state(old(self)@),
            deliveries_view(out@) == sp_flush_deliveries(old(self)@),
    {
        let ghost v0 = self@;
        if self.pending_updates.len() == 0 && self.pending_removes.len() == 0 {
            let out: Vec<(u32, Vec<u8>)> = Vec::new();
            proof {
                assert(deliveries_view(out@) =~= sp_flush_deliveries(v0));
            }
            return out;
        }
        proof {
            lemma_pending_bounded(v0);
        }
        let mut out: Vec<(u32, Vec<u8>)> = Vec::new();
        let idle_opt: Option<Vec<u8>> = encode_diff(&self.pending_updates, &self.pending_removes);
        let idle_frame_v: Vec<u8> = idle_opt.unwrap();
        let mut i: usize = 0;
        while i < self.users.len()
            invariant
                i <= v0.users.len(),
                deliveries_view(out@) == v0.users.subrange(0, i as int).filter(
                    idle_pred(v0),
                ).map_values(idle_delivery_fn(v0)),
            decreases v0.users.len() - i,
        {
            let u: UserRec = self.users[i];
            let ghost pre = v0.users.subrange(0, i as int);
            let ghost out_pre = out@;
            let ghost fprev = pre.filter(idle_pred(v0));
            let has_pending: bool = pending_contains(&self.pending_updates, u.id);
            proof {
                assert(has_pending == v0.is_pending(u.id));
                assert(v0.users.subrange(0, i + 1) =~= pre.push(u));
                lemma_filter_push(pre, idle_pred(v0), u);
                assert(idle_pred(v0)(u) == !v0.is_pending(u.id));
            }
            if !has_pending {
                let f: Vec<u8> = copy_frame(&idle_frame_v);
                out.push((u.id, f));
                proof {
                    assert(idle_delivery_fn(v0)(u) == (u.id, f@));
                    assert(deliveries_view(out@) =~= deliveries_view(out_pre).push(
                        idle_delivery_fn(v0)(u),
                    ));
                    assert(fprev.push(u).map_values(idle_delivery_fn(v0))
                        =~= fprev.map_values(idle_delivery_fn(v0)).push(idle_delivery_fn(v0)(u)));
                }
            }
            i = i + 1;
            proof {
                assert(deliveries_view(out@) == v0.users.subrange(0, i as int).filter(
                    idle_pred(v0),
                ).map_values(idle_delivery_fn(v0)));
            }
        }
        proof {
            assert(v0.users.subrange(0, v0.users.len() as int) =~= v0.users);
            assert(deliveries_view(out@) == sp_idle_deliveries(v0));
        }
        let ghost idle_part = deliveries_view(out@);
        let mut k: usize = 0;
        while k < self.users.len()
            invariant
                k <= v0.users.len(),
                self.users@.len() == v0.users.len(),
                self.pending_updates@ == v0.pending_updates,
                self.pending_removes@ == v0.pending_removes,
                self.latest_id == v0.latest_id,
                forall|m: int| 0 <= m < k ==> self.users@[m] == refresh_fn(v0)(v0.users[m]),
                forall|m: int| k <= m < v0.users.len() ==> self.users@[m] == v0.users[m],
            decreases v0.users.len() - k,
        {
            let u: UserRec = self.users[k];
            match pending_lookup(&self.pending_updates, u.id) {
                Some(p) => {
                    self.users.set(k, UserRec { id: u.id, last_pos: p });
                    proof {
                        let w = choose|w: int|
                            0 <= w < v0.pending_updates.len() && (#[trigger] v0.pending_updates[w])
                                == (u.id, p);
                        lemma_pending_position_agrees(v0, w);
                        assert(self.users@[k as int] == refresh_fn(v0)(v0.users[k as int]));
                    }
                },
                None => {
                    proof {
                        assert(!v0.is_pending(u.id));
                        assert(self.users@[k as int] == refresh_fn(v0)(v0.users[k as int]));
                    }
                },
            }
            k = k + 1;
        }
        proof {
            assert(self.users@ =~= v0.users.map_values(refresh_fn(v0)));
        }
        let personalize: bool = self.pending_updates.len() > 1 || self.pending_removes.len() > 0;
        if personalize {
            let mut j: usize = 0;
            while j < self.pending_updates.len()
                invariant
                    j <= v0.pending_updates.len(),
                    deliveries_view(out@) == idle_part + v0.pending_updates.subrange(
                        0,
                        j as int,
                    ).map_values(personal_delivery_fn(v0)),
                decreases v0.pending_updates.len() - j,
            {
                let e: (u32, Position) = self.pending_updates[j];
                let mut excl: Vec<(u32, Position)> = Vec::new();
                let mut m: usize = 0;
                while m < self.pending_updates.len()
                    invariant
                        m <= v0.pending_updates.len(),
                        excl@ == v0.pending_updates.subrange(0, m as int).filter(
                            ne_id_pred(e.0),
                        ),
                    decreases v0.pending_updates.len() - m,
                {
                    let e2: (u32, Position) = self.pending_updates[m];
                    let ghost prem = v0.pending_updates.subrange(0, m as int);
                    if e2.0 != e.0 {
                        excl.push(e2);
                    }
                    m = m + 1;
                    proof {
                        assert(v0.pending_updates.subrange(0, m as int) =~= prem.push(e2));
                        lemma_filter_push(prem, ne_id_pred(e.0), e2);
                        assert(ne_id_pred(e.0)(e2) == (e2.0 != e.0));
                        assert(excl@ =~= v0.pending_updates.subrange(0, m as int).filter(
                            ne_id_pred(e.0),
                        ));
                    }
                }
                proof {
                    assert(v0.pending_updates.subrange(0, v0.pending_updates.len() as int)
                        =~= v0.pending_updates);
                    assert(excl@ == entries_excluding(v0, e.0));
                    assert forall|n: int|
                        0 <= n < v0.pending_updates.len() && n != j as int implies ne_id_pred(e.0)(
                    #[trigger] v0.pending_updates[n]) by {
                        if n < j as int {
                            assert(v0.pending_updates[n].0 != v0.pending_updates[j as int].0);
                        } else {
                            assert(v0.pending_updates[j as int].0 != v0.pending_updates[n].0);
                        }
                    }
                    lemma_filter_skip_one(v0.pending_updates, ne_id_pred(e.0), j as int);
                    assert(excl@.len() == v0.pending_updates.len() - 1);
                }
                let frame_opt: Option<Vec<u8>> = encode_diff(&excl, &self.pending_removes);
                let frame: Vec<u8> = frame_opt.unwrap();
                let ghost out_pre = out@;
                let ghost prej = v0.pending_updates.subrange(0, j as int);
                let ghost pprev = prej.map_values(personal_delivery_fn(v0));
                out.push((e.0, frame));
                j = j + 1;
                proof {
                    assert(v0.pending_updates.subrange(0, j as int) =~= prej.push(e));
                    assert(frame@ == diff_bytes(entries_excluding(v0, e.0), v0.pending_removes));
                    assert(personal_delivery_fn(v0)(e) == (e.0, frame@));
                    assert(deliveries_view(out@) =~= deliveries_view(out_pre).push(
                        personal_delivery_fn(v0)(e),
                    ));
                    assert(prej.push(e).map_values(personal_delivery_fn(v0)) =~= pprev.push(
                        personal_delivery_fn(v0)(e),
                    ));
                    assert((idle_part + pprev).push(personal_delivery_fn(v0)(e)) =~= idle_part + (
                    pprev.push(personal_delivery_fn(v0)(e))));
                    assert(deliveries_view(out@) == idle_part + v0.pending_updates.subrange(
                        0,
                        j as int,
                    ).map_values(personal_delivery_fn(v0)));
                }
            }
            proof {
                assert(v0.pending_updates.subrange(0, v0.pending_updates.len() as int)
                    =~= v0.pending_updates);
                assert(deliveries_view(out@) == idle_part + sp_personal_deliveries(v0));
            }
        } else {
            proof {
                assert(sp_personal_deliveries(v0) =~= Seq::<(u32, Seq<u8>)>::empty());
                assert(deliveries_view(out@) =~= idle_part + sp_personal_deliveries(v0));
            }
        }
        self.pending_updates.clear();
        self.pending_removes.clear();
        proof {
            assert(self@ =~= sp_flush_state(v0));
            assert(deliveries_view(out@) == sp_flush_deliveries(v0));
            let nu = self@.users;
            assert forall|a: int| 0 <= a < nu.len() implies (#[trigger] nu[a]).id
                == v0.users[a].id && nu[a].last_pos.wf() by {
                assert(nu[a] == refresh_fn(v0)(v0.users[a]));
                if v0.is_pending(v0.users[a].id) {
                    let c = choose|c: int|
                        0 <= c < v0.pending_updates.len() && (#[trigger] v0.pending_updates[c]).0
                            == v0.users[a].id;
                    assert(v0.pending_updates[c].1.wf());
                }
            }
            assert forall|a: int, b: int|
                0 <= a < b < nu.len() implies (#[trigger] nu[a]).id != (#[trigger] nu[b]).id by {
                assert(v0.users[a].id != v0.users[b].id);
            }
            assert(self@.wf());
        }
        out
    }
}

/// After dropping pending entries (users untouched), the hub invariant
/// still holds: the remaining pending entries are a selection of the old
/// ones.
proof fn lemma_wf_after_pending_shrink(v0: HubView, v1: HubView)
    requires
        v0.wf(),
        v1.latest_id == v0.latest_id,
        v1.users == v0.users,
        v1.pending_removes == v0.pending_removes,
        v1.pending_updates == v0.pending_updates || (exists|j: int|
            0 <= j < v0.pending_updates.len() && v1.pending_updates == v0.pending_updates.remove(
                j,
            )),
    ensures
        v1.wf(),
{
    if v1.pending_updates != v0.pending_updates {
        let j = choose|j: int|
            0 <= j < v0.pending_updates.len() && v1.pending_updates == v0.pending_updates.remove(
                j,
            );
        let np = v1.pending_updates;
        assert forall|i1: int, i2: int|
            0 <= i1 < i2 < np.len() implies (#[trigger] np[i1]).0 != (#[trigger] np[i2]).0 by {
            let o1: int = if i1 < j {
                i1
            } else {
                i1 + 1
            };
            let o2: int = if i2 < j {
                i2
            } else {
                i2 + 1
            };
            assert(np[i1] == v0.pending_updates[o1] && np[i2] == v0.pending_updates[o2]);
            assert(v0.pending_updates[o1].0 != v0.pending_updates[o2].0);
        }
        assert forall|i: int|
            0 <= i < np.len() implies v1.is_connected((#[trigger] np[i]).0) && np[i].1.wf() by {
            let oi: int = if i < j {
                i
            } else {
                i + 1
            };
            assert(np[i] == v0.pending_updates[oi]);
            assert(v0.is_connected(v0.pending_updates[oi].0));
        }
    }
}

/// After removing one user at index `ui` (with id `id`) and dropping at
/// most one pending entry, where no remaining pending entry carries `id`,
/// the pending part of the hub invariant still holds.
proof fn lemma_pending_entries_still_connected(
    v0: HubView,
    new_users: Seq<UserRec>,
    new_pending: Seq<(u32, Position)>,
    id: u32,
    ui: int,
)
    requires
        v0.wf(),
        0 <= ui < v0.users.len(),
        v0.users[ui].id == id,
        new_users == v0.users.remove(ui),
        new_pending == v0.pending_updates || (exists|j: int|
            0 <= j < v0.pending_updates.len() && new_pending == v0.pending_updates.remove(j)),
        forall|k: int| 0 <= k < new_pending.len() ==> (#[trigger] new_pending[k]).0 != id,
    ensures
        forall|i: int, j: int|
            0 <= i < j < new_pending.len() ==> (#[trigger] new_pending[i]).0 != (
            #[trigger] new_pending[j]).0,
        forall|i: int|
            0 <= i < new_pending.len() ==> (exists|w: int|
                0 <= w < new_users.len() && (#[trigger] new_users[w]).id == new_pending[i].0)
                && new_pending[i].1.wf(),
{
    let np = new_pending;
    let op = v0.pending_updates;
    let r: int = if np == op {
        op.len() as int
    } else {
        choose|j: int| 0 <= j < op.len() && np == op.remove(j)
    };
    assert forall|i: int| 0 <= i < np.len() implies np[i] == op[if i < r {
        i
    } else {
        i + 1
    }] by {
        if np != op {
            assert(np == op.remove(r));
        }
    }
    assert forall|i: int, j: int|
        0 <= i < j < np.len() implies (#[trigger] np[i]).0 != (#[trigger] np[j]).0 by {
        let oi: int = if i < r {
            i
        } else {
            i + 1
        };
        let oj: int = if j < r {
            j
        } else {
            j + 1
        };
        assert(np[i] == op[oi] && np[j] == op[oj]);
        assert(op[oi].0 != op[oj].0);
    }
    assert forall|i: int|
        0 <= i < np.len() implies (exists|w: int|
        0 <= w < new_users.len() && (#[trigger] new_users[w]).id == np[i].0) && np[i].1.wf() by {
        let oi: int = if i < r {
            i
        } else {
            i + 1
        };
        assert(np[i] == op[oi]);
        assert(v0.is_connected(op[oi].0));
        assert(op[oi].1.wf());
        let w = choose|w: int| 0 <= w < v0.users.len() && (#[trigger] v0.users[w]).id == op[oi].0;
        assert(np[i].0 != id);
        assert(w != ui);
        let nw: int = if w < ui {
            w
        } else {
            w - 1
        };
        assert(new_users[nw] == v0.users[w]);
    }
}

/// Filtering distributes over appending one element.
proof fn lemma_filter_push<A>(s: Seq<A>, p: spec_fn(A) -> bool, x: A)
    ensures
        s.push(x).filter(p) == if p(x) {
            s.filter(p).push(x)
        } else {
            s.filter(p)
        },
{
    reveal(Seq::filter);
    assert(s.push(x).drop_last() =~= s);
    assert(s.push(x).last() == x);
}

/// With unique pending ids, any matching entry gives the pending position.
proof fn lemma_pending_position_agrees(v: HubView, i: int)
    requires
        v.wf(),
        0 <= i < v.pending_updates.len(),
    ensures
        v.is_pending(v.pending_updates[i].0),
        v.pending_position(v.pending_updates[i].0) == v.pending_updates[i].1,
{
    let id = v.pending_updates[i].0;
    assert(v.is_pending(id));
    let c = choose|c: int|
        0 <= c < v.pending_updates.len() && (#[trigger] v.pending_updates[c]).0 == id;
    if c != i {
        if c < i {
            assert(v.pending_updates[c].0 != v.pending_updates[i].0);
        } else {
            assert(v.pending_updates[i].0 != v.pending_updates[c].0);
        }
    }
}

/// Copies one outbound frame for an additional recipient.
fn copy_frame(src: &Vec<u8>) -> (r: Vec<u8>)
    ensures
        r@ == src@,
{
    let mut out: Vec<u8> = Vec::new();
    let mut i: usize = 0;
    while i < src.len()
        invariant
            i <= src@.len(),
            out@ == src@.subrange(0, i as int),
        decreases src@.len() - i,
    {
        out.push(src[i]);
        i = i + 1;
        proof {
            assert(out@ =~= src@.subrange(0, i as int));
        }
    }
    proof {
        assert(src@.subrange(0, src@.len() as int) =~= src@);
    }
    out
}

/// Decides whether client `id` has a pending update.
fn pending_contains(pending: &Vec<(u32, Position)>, id: u32) -> (r: bool)
    ensures
        r == exists|i: int| 0 <= i < pending@.len() && (#[trigger] pending@[i]).0 == id,
{
    match find_pending(pending, id) {
        Some(i) => {
            proof {
                assert(pending@[i as int].0 == id);
            }
            true
        },
        None => false,
    }
}

/// Looks up the pending position of client `id`.
fn pending_lookup(pending: &Vec<(u32, Position)>, id: u32) -> (r: Option<Position>)
    ensures
        match r {
            Some(p) => exists|i: int|
                0 <= i < pending@.len() && (#[trigger] pending@[i]) == (id, p),
            None => forall|k: int| 0 <= k < pending@.len() ==> (#[trigger] pending@[k]).0 != id,
        },
{
    match find_pending(pending, id) {
        Some(i) => {
            let e: (u32, Position) = pending[i];
            proof {
                assert(pending@[i as int] == (id, e.1));
            }
            Some(e.1)
        },
        None => None,
    }
}

/// Finds the table index of client `id`.
fn find_user(users: &Vec<UserRec>, id: u32) -> (r: Option<usize>)
    ensures
        match r {
            Some(i) => i < users@.len() && users@[i as int].id == id,
            None => forall|k: int| 0 <= k < users@.len() ==> (#[trigger] users@[k]).id != id,
        },
{
    let mut i: usize = 0;
    while i < users.len()
        invariant
            i <= users@.len(),
            forall|k: int| 0 <= k < i ==> (#[trigger] users@[k]).id != id,
        decreases users@.len() - i,
    {
        if users[i].id == id {
            return Some(i);
        }
        i = i + 1;
    }
    None
}

/// Finds the index of the pending entry of client `id`.
fn find_pending(pending: &Vec<(u32, Position)>, id: u32) -> (r: Option<usize>)
    ensures
        match r {
            Some(i) => i < pending@.len() && pending@[i as int].0 == id,
            None => forall|k: int| 0 <= k < pending@.len() ==> (#[trigger] pending@[k]).0 != id,
        },
{
    let mut i: usize = 0;
    while i < pending.len()
        invariant
            i <= pending@.len(),
            forall|k: int| 0 <= k < i ==> (#[trigger] pending@[k]).0 != id,
        decreases pending@.len() - i,
    {
        if pending[i].0 == id {
            return Some(i);
        }
        i = i + 1;
    }
    None
}

/// Disconnect is idempotent: after one disconnect the client is gone, and a
/// second disconnect of the same id changes nothing and does not arm the
/// scheduler.
pub proof fn lemma_disconnect_idempotent(v: HubView, id: u32)
    requires
        v.wf(),
    ensures
        !sp_disconnect_state(v, id).is_connected(id),
        sp_disconnect_state(sp_disconnect_state(v, id), id) == sp_disconnect_state(v, id),
{
    broadcast use vstd::seq_lib::group_filter_ensures;

    let v1 = sp_disconnect_state(v, id);
    assert(!v1.is_connected(id)) by {
        if v1.is_connected(id) {
            let i = choose|i: int| 0 <= i < v1.users.len() && (#[trigger] v1.users[i]).id == id;
            assert(user_ne_id_pred(id)(v1.users[i]));
        }
    }
}

/// No-op suppression: a connected client reporting the very point last
/// broadcast on its behalf never arms the scheduler, and afterwards no
/// pending entry carries its id — so no update section built from the
/// pending set at the next flush can mention it.
pub proof fn lemma_noop_update_suppressed(v: HubView, id: u32, p: Position)
    requires
        v.wf(),
        v.is_connected(id),
        same_point(p, v.last_broadcast_position(id)),
    ensures
        !sp_update_arms(v, id, p),
        !sp_update_state(v, id, p).is_pending(id),
        forall|k: int|
            0 <= k < sp_update_state(v, id, p).pending_updates.len() ==> (
            #[trigger] sp_update_state(v, id, p).pending_updates[k]).0 != id,
        forall|rid: u32, k: int|
            0 <= k < entries_excluding(sp_update_state(v, id, p), rid).len() ==> (
            #[trigger] entries_excluding(sp_update_state(v, id, p), rid)[k]).0 != id,
{
    broadcast use vstd::seq_lib::group_filter_ensures;

    let v2 = sp_update_state(v, id, p);
    assert forall|k: int| 0 <= k < v2.pending_updates.len() implies (
    #[trigger] v2.pending_updates[k]).0 != id by {
        assert(ne_id_pred(id)(v2.pending_updates[k]));
    }
    assert forall|rid: u32, k: int|
        0 <= k < entries_excluding(v2, rid).len() implies (
    #[trigger] entries_excluding(v2, rid)[k]).0 != id by {
        let e = entries_excluding(v2, rid)[k];
        assert(v2.pending_updates.filter(ne_id_pred(rid)).contains(e));
        v2.pending_updates.lemma_filter_contains_rev(ne_id_pred(rid), e);
        let w = choose|w: int|
            0 <= w < v2.pending_updates.len() && v2.pending_updates[w] == e;
        assert(v2.pending_updates[w].0 != id);
    }
}

/// Self-exclusion: the personalized diff delivered to an updated client is
/// addressed to that client and carries the pending updates of the other
/// clients only — never an update entry with the recipient's own id.
pub proof fn lemma_self_exclusion(v: HubView, j: int)
    requires
        v.wf(),
        0 <= j < sp_personal_deliveries(v).len(),
    ensures
        sp_personal_deliveries(v)[j].0 == v.pending_updates[j].0,
        sp_personal_deliveries(v)[j].1 == diff_bytes(
            entries_excluding(v, v.pending_updates[j].0),
            v.pending_removes,
        ),
        forall|k: int|
            0 <= k < entries_excluding(v, v.pending_updates[j].0).len() ==> (
            #[trigger] entries_excluding(v, v.pending_updates[j].0)[k]).0 != v.pending_updates[j].0,
{
    broadcast use vstd::seq_lib::group_filter_ensures;

    let id = v.pending_updates[j].0;
    assert forall|k: int| 0 <= k < entries_excluding(v, id).len() implies (
    #[trigger] entries_excluding(v, id)[k]).0 != id by {
        assert(ne_id_pred(id)(entries_excluding(v, id)[k]));
    }
}

/// Empty-diff suppression: when a client's own update is the only pending
/// content and no removals are queued, that client receives no frame at the
/// flush — every delivery of the flush is addressed to another id.
pub proof fn lemma_empty_diff_suppressed(v: HubView, id: u32)
    requires
        v.wf(),
        v.pending_updates.len() == 1,
        v.pending_updates[0].0 == id,
        v.pending_removes.len() == 0,
    ensures
        forall|d: int|
            0 <= d < sp_flush_deliveries(v).len() ==> (#[trigger] sp_flush_deliveries(v)[d]).0
                != id,
{
    broadcast use vstd::seq_lib::group_filter_ensures;

    assert(!personalized_nonempty(v));
    assert(sp_personal_deliveries(v).len() == 0);
    assert(v.is_pending(id)) by {
        assert(v.pending_updates[0].0 == id);
    }
    assert forall|d: int| 0 <= d < sp_flush_deliveries(v).len() implies (
    #[trigger] sp_flush_deliveries(v)[d]).0 != id by {
        assert(sp_flush_deliveries(v)[d] == sp_idle_deliveries(v)[d]);
        let u = idle_recipients(v)[d];
        assert(idle_pred(v)(u));
        assert(sp_idle_deliveries(v)[d] == idle_delivery_fn(v)(u));
    }
}

} // verus!
