//! The connection table: one state machine per connection key, created when
//! a SYN arrives for an unseen key and discarded when the machine reaches
//! `Closed`.

use vstd::prelude::*;
use crate::conn::{
    spec_listen_connection, spec_on_timer, spec_step, Connection, TcpState,
};
use crate::segment::{ConnectionKey, EngineError, OutboundSegment, SegmentMeta};

verus! {

/// One table slot: a key and the connection it identifies.
#[derive(Clone, Copy, PartialEq, Eq, Structural, Debug)]
pub struct TableEntry {
    pub key: ConnectionKey,
    pub conn: Connection,
}

/// The table itself. The order of the entries carries no meaning; the
/// contracts speak of it as a finite map from key to connection.
pub struct ConnectionTable {
    pub entries: Vec<TableEntry>,
}

impl ConnectionTable {
    /// Some entry holds this key.
    pub open spec fn has_key(self, k: ConnectionKey) -> bool {
        exists|i: int| 0 <= i < self.entries@.len() && self.entries@[i].key == k
    }

    /// The index of the entry holding this key (meaningful under `has_key`
    /// and key uniqueness).
    pub open spec fn spec_index_of(self, k: ConnectionKey) -> int {
        choose|i: int| 0 <= i < self.entries@.len() && self.entries@[i].key == k
    }

    /// The connection this key identifies (meaningful under `has_key`).
    pub open spec fn conn_at(self, k: ConnectionKey) -> Connection {
        self.entries@[self.spec_index_of(k)].conn
    }

    /// Table validity: no key twice, and every stored connection is a valid
    /// machine in a live state — entries are created past `Listen` and
    /// discarded at `Closed`.
    pub open spec fn wf(self) -> bool {
        &&& forall|i: int, j: int|
            #![trigger self.entries@[i], self.entries@[j]]
            0 <= i < j < self.entries@.len() ==> self.entries@[i].key != self.entries@[j].key
        &&& forall|i: int|
            0 <= i < self.entries@.len() ==> {
                &&& (#[trigger] self.entries@[i]).conn.wf()
                &&& self.entries@[i].conn.state != TcpState::Closed
                &&& self.entries@[i].conn.state != TcpState::Listen
            }
    }

    /// An empty table.
    pub fn new() -> (t: ConnectionTable)
        ensures
            t.wf(),
            t.entries@.len() == 0,
            forall|k: ConnectionKey| !t.has_key(k),
    {
        ConnectionTable { entries: Vec::new() }
    }

    /// Number of live connections.
    pub fn len(&self) -> (n: usize)
        ensures
            n == self.entries@.len(),
    {
        self.entries.len()
    }

    /// The keys of all live connections, in table order.
    pub fn keys(&self) -> (r: Vec<ConnectionKey>)
        ensures
            r@.len() == self.entries@.len(),
            forall|i: int| 0 <= i < r@.len() ==> r@[i] == self.entries@[i].key,
    {
        let mut r: Vec<ConnectionKey> = Vec::new();
        let mut i: usize = 0;
        while i < self.entries.len()
            invariant
                i <= self.entries@.len(),
                r@.len() == i,
                forall|j: int| 0 <= j < i ==> r@[j] == self.entries@[j].key,
            decreases self.entries@.len() - i,
        {
            r.push(self.entries[i].key);
            i = i + 1;
        }
        r
    }

    /// Look a key up, returning the index of its entry.
    fn find(&self, key: &ConnectionKey) -> (r: Option<usize>)
        ensures
            match r {
                Some(i) => 0 <= i < self.entries@.len() && self.entries@[i as int].key == *key,
                None => !self.has_key(*key),
            },
    {
        let mut i: usize = 0;
        while i < self.entries.len()
            invariant
                i <= self.entries@.len(),
                forall|j: int| 0 <= j < i ==> self.entries@[j].key != *key,
            decreases self.entries@.len() - i,
        {
            if self.entries[i].key == *key {
                return Some(i);
            }
            i = i + 1;
        }
        None
    }

    /// The connection a key identifies, if the table holds one.
    pub fn lookup(&self, key: &ConnectionKey) -> (r: Option<Connection>)
        requires
            self.wf(),
        ensures
            match r {
                Some(c) => self.has_key(*key) && c == self.conn_at(*key),
                None => !self.has_key(*key),
            },
    {
        match self.find(key) {
            Some(i) => {
                proof {
                    lemma_key_at(*self, *key, i as int);
                }
                Some(self.entries[i].conn)
            }
            None => None,
        }
    }

    /// Dispatch one decoded segment: look the key up — creating a listening
    /// machine for an unseen key — run the state machine, keep the stepped
    /// machine under the key, and drop the entry when the machine left the
    /// table's live states. Entries for other keys are untouched.
    pub fn process_segment(&mut self, key: &ConnectionKey, seg: &SegmentMeta) -> (r: Result<
        Option<OutboundSegment>,
        EngineError,
    >)
        requires
            old(self).wf(),
            seg.wf(),
        ensures
            final(self).wf(),
            ({
                let c0 = if old(self).has_key(*key) {
                    old(self).conn_at(*key)
                } else {
                    spec_listen_connection()
                };
                let (c1, res) = spec_step(c0, *key, *seg);
                let gone = c1.state == TcpState::Closed || c1.state == TcpState::Listen;
                &&& r == res
                &&& !gone ==> (final(self).has_key(*key) && final(self).conn_at(*key) == c1)
                &&& gone ==> !final(self).has_key(*key)
            }),
            forall|k: ConnectionKey| k != *key ==> final(self).has_key(k) == old(self).has_key(k),
            forall|k: ConnectionKey|
                k != *key && old(self).has_key(k) ==> final(self).conn_at(k) == old(self).conn_at(
                    k,
                ),
    {
        let found = self.find(key);
        match found {
            None => {
                let mut c = Connection::listen();
                let r = c.on_packet(key, seg);
                if !(matches!(c.state, TcpState::Listen) || matches!(c.state, TcpState::Closed)) {
                    let ghost s0 = self.entries@;
                    self.entries.push(TableEntry { key: *key, conn: c });
                    proof {
                        assert(forall|i: int| 0 <= i < s0.len() ==> s0[i].key != *key);
                        assert(forall|i: int|
                            0 <= i < s0.len() ==> self.entries@[i] == s0[i]);
                        assert(self.entries@[s0.len() as int].key == *key);
                        lemma_key_at(*self, *key, s0.len() as int);
                        lemma_frame_after_push(*old(self), *self, *key);
                    }
                }
                r
            }
            Some(i) => {
                let mut c = self.entries[i].conn;
                let r = c.on_packet(key, seg);
                proof {
                    lemma_key_at(*old(self), *key, i as int);
                    lemma_step_stays_live(old(self).conn_at(*key), *key, *seg);
                }
                if matches!(c.state, TcpState::Closed) {
                    let ghost s0 = self.entries@;
                    self.entries.remove(i);
                    proof {
                        lemma_frame_after_remove(*old(self), *self, *key, i as int);
                    }
                } else {
                    let ghost s0 = self.entries@;
                    self.entries[i] = TableEntry { key: *key, conn: c };
                    proof {
                        assert(forall|j: int|
                            0 <= j < s0.len() && j != i ==> self.entries@[j] == s0[j]);
                        lemma_key_at(*self, *key, i as int);
                        lemma_frame_after_update(*old(self), *self, *key, i as int);
                    }
                }
                r
            }
        }
    }

    /// A timer due for this key has expired: run the machine's timer step,
    /// keep or drop the entry as for a segment. For an unknown key nothing
    /// happens.
    pub fn process_timer(&mut self, key: &ConnectionKey) -> (r: Option<OutboundSegment>)
        requires
            old(self).wf(),
        ensures
            final(self).wf(),
            !old(self).has_key(*key) ==> r is None && *final(self) == *old(self),
            old(self).has_key(*key) ==> ({
                let (c1, res) = spec_on_timer(old(self).conn_at(*key), *key);
                &&& r == res
                &&& c1.state != TcpState::Closed ==> (final(self).has_key(*key) && final(self).conn_at(*key) == c1)
                &&& c1.state == TcpState::Closed ==> !final(self).has_key(*key)
            }),
            forall|k: ConnectionKey| k != *key ==> final(self).has_key(k) == old(self).has_key(k),
            forall|k: ConnectionKey|
                k != *key && old(self).has_key(k) ==> final(self).conn_at(k) == old(self).conn_at(
                    k,
                ),
    {
        let found = self.find(key);
        match found {
            None => None,
            Some(i) => {
                let mut c = self.entries[i].conn;
                let r = c.on_timer_expired(key);
                proof {
                    lemma_key_at(*old(self), *key, i as int);
                }
                if matches!(c.state, TcpState::Closed) {
                    self.entries.remove(i);
                    proof {
                        lemma_frame_after_remove(*old(self), *self, *key, i as int);
                    }
                } else {
                    let ghost s0 = self.entries@;
                    self.entries[i] = TableEntry { key: *key, conn: c };
                    proof {
                        assert(forall|j: int|
                            0 <= j < s0.len() && j != i ==> self.entries@[j] == s0[j]);
                        lemma_key_at(*self, *key, i as int);
                        lemma_frame_after_update(*old(self), *self, *key, i as int);
                    }
                }
                r
            }
        }
    }
}

/// Under key uniqueness, an entry holding `k` at index `i` is the entry the
/// table's map view gives for `k`.
proof fn lemma_key_at(t: ConnectionTable, k: ConnectionKey, i: int)
    requires
        forall|p: int, q: int|
            #![trigger t.entries@[p], t.entries@[q]]
            0 <= p < q < t.entries@.len() ==> t.entries@[p].key != t.entries@[q].key,
        0 <= i < t.entries@.len(),
        t.entries@[i].key == k,
    ensures
        t.has_key(k),
        t.spec_index_of(k) == i,
        t.conn_at(k) == t.entries@[i].conn,
{
    assert(t.has_key(k));
    let j = t.spec_index_of(k);
    assert(0 <= j < t.entries@.len() && t.entries@[j].key == k);
    if j < i {
        assert(t.entries@[j].key != t.entries@[i].key);
    } else if i < j {
        assert(t.entries@[i].key != t.entries@[j].key);
    }
}

/// A step of the state machine never re-enters `Listen` from a live state.
proof fn lemma_step_stays_live(c: Connection, key: ConnectionKey, seg: SegmentMeta)
    requires
        c.state != TcpState::Listen,
    ensures
        spec_step(c, key, seg).0.state != TcpState::Listen,
{
}

/// Pushing an entry for a key the table lacked leaves every other key's
/// entry as it was.
proof fn lemma_frame_after_push(t0: ConnectionTable, t1: ConnectionTable, key: ConnectionKey)
    requires
        forall|p: int, q: int|
            #![trigger t1.entries@[p], t1.entries@[q]]
            0 <= p < q < t1.entries@.len() ==> t1.entries@[p].key != t1.entries@[q].key,
        t1.entries@.len() == t0.entries@.len() + 1,
        forall|i: int| 0 <= i < t0.entries@.len() ==> t1.entries@[i] == t0.entries@[i],
        t1.entries@[t0.entries@.len() as int].key == key,
    ensures
        forall|k: ConnectionKey| k != key ==> t1.has_key(k) == t0.has_key(k),
        forall|k: ConnectionKey| k != key && t0.has_key(k) ==> t1.conn_at(k) == t0.conn_at(k),
{
    assert forall|k: ConnectionKey| k != key implies t1.has_key(k) == t0.has_key(k) by {
        if t0.has_key(k) {
            let i = t0.spec_index_of(k);
            assert(t1.entries@[i].key == k);
        }
        if t1.has_key(k) {
            let i = t1.spec_index_of(k);
            assert(i < t0.entries@.len());
            assert(t0.entries@[i].key == k);
        }
    }
    assert forall|k: ConnectionKey| k != key && t0.has_key(k) implies t1.conn_at(k) == t0.conn_at(
        k,
    ) by {
        let i = t0.spec_index_of(k);
        assert(t0.entries@[i].key == k);
        lemma_key_at(t1, k, i);
    }
}

/// Removing the one entry that held `key` leaves every other key's entry as
/// it was, and no entry holds `key` afterwards.
proof fn lemma_frame_after_remove(t0: ConnectionTable, t1: ConnectionTable, key: ConnectionKey, i: int)
    requires
        forall|p: int, q: int|
            #![trigger t0.entries@[p], t0.entries@[q]]
            0 <= p < q < t0.entries@.len() ==> t0.entries@[p].key != t0.entries@[q].key,
        0 <= i < t0.entries@.len(),
        t0.entries@[i].key == key,
        t1.entries@ == t0.entries@.remove(i),
    ensures
        forall|p: int, q: int|
            #![trigger t1.entries@[p], t1.entries@[q]]
            0 <= p < q < t1.entries@.len() ==> t1.entries@[p].key != t1.entries@[q].key,
        forall|j: int|
            0 <= j < t1.entries@.len() ==> (#[trigger] t1.entries@[j] == t0.entries@[j]
                || t1.entries@[j] == t0.entries@[j + 1]),
        !t1.has_key(key),
        forall|k: ConnectionKey| k != key ==> t1.has_key(k) == t0.has_key(k),
        forall|k: ConnectionKey| k != key && t0.has_key(k) ==> t1.conn_at(k) == t0.conn_at(k),
{
    assert(t1.entries@.len() == t0.entries@.len() - 1);
    assert forall|j: int|
        0 <= j < t1.entries@.len() implies (#[trigger] t1.entries@[j] == t0.entries@[j]
        || t1.entries@[j] == t0.entries@[j + 1]) by {
        if j < i {
            assert(t0.entries@[j] == t1.entries@[j]);
        } else {
            assert(t0.entries@[j + 1] == t1.entries@[j]);
        }
    }
    assert forall|p: int, q: int|
        0 <= p < q < t1.entries@.len() implies t1.entries@[p].key != t1.entries@[q].key by {
        let p0 = if p < i { p } else { p + 1 };
        let q0 = if q < i { q } else { q + 1 };
        assert(t1.entries@[p] == t0.entries@[p0]);
        assert(t1.entries@[q] == t0.entries@[q0]);
    }
    assert forall|j: int| 0 <= j < t1.entries@.len() implies t1.entries@[j].key != key by {
        let j0 = if j < i { j } else { j + 1 };
        assert(t1.entries@[j] == t0.entries@[j0]);
    }
    assert forall|k: ConnectionKey| k != key implies t1.has_key(k) == t0.has_key(k) by {
        if t0.has_key(k) {
            let j0 = t0.spec_index_of(k);
            let j1 = if j0 < i { j0 } else { j0 - 1 };
            assert(t0.entries@[j0].key == k);
            assert(j0 != i);
            assert(t1.entries@[j1] == t0.entries@[j0]);
        }
        if t1.has_key(k) {
            let j1 = t1.spec_index_of(k);
            let j0 = if j1 < i { j1 } else { j1 + 1 };
            assert(t1.entries@[j1] == t0.entries@[j0]);
        }
    }
    assert forall|k: ConnectionKey| k != key && t0.has_key(k) implies t1.conn_at(k) == t0.conn_at(
        k,
    ) by {
        let j0 = t0.spec_index_of(k);
        assert(t0.entries@[j0].key == k);
        assert(j0 != i);
        let j1 = if j0 < i { j0 } else { j0 - 1 };
        assert(t1.entries@[j1] == t0.entries@[j0]);
        lemma_key_at(t1, k, j1);
    }
}

/// Replacing the entry at `i` by one with the same key leaves every other
/// key's entry as it was.
proof fn lemma_frame_after_update(t0: ConnectionTable, t1: ConnectionTable, key: ConnectionKey, i: int)
    requires
        forall|p: int, q: int|
            #![trigger t0.entries@[p], t0.entries@[q]]
            0 <= p < q < t0.entries@.len() ==> t0.entries@[p].key != t0.entries@[q].key,
        0 <= i < t0.entries@.len(),
        t0.entries@[i].key == key,
        t1.entries@.len() == t0.entries@.len(),
        t1.entries@[i].key == key,
        forall|j: int| 0 <= j < t0.entries@.len() && j != i ==> t1.entries@[j] == t0.entries@[j],
    ensures
        forall|p: int, q: int|
            #![trigger t1.entries@[p], t1.entries@[q]]
            0 <= p < q < t1.entries@.len() ==> t1.entries@[p].key != t1.entries@[q].key,
        forall|k: ConnectionKey| k != key ==> t1.has_key(k) == t0.has_key(k),
        forall|k: ConnectionKey| k != key && t0.has_key(k) ==> t1.conn_at(k) == t0.conn_at(k),
{
    assert forall|p: int, q: int|
        0 <= p < q < t1.entries@.len() implies t1.entries@[p].key != t1.entries@[q].key by {
        assert(t1.entries@[p].key == t0.entries@[p].key);
        assert(t1.entries@[q].key == t0.entries@[q].key);
    }
    assert forall|k: ConnectionKey| k != key implies t1.has_key(k) == t0.has_key(k) by {
        if t0.has_key(k) {
            let j = t0.spec_index_of(k);
            assert(j != i);
            assert(t1.entries@[j].key == k);
        }
        if t1.has_key(k) {
            let j = t1.spec_index_of(k);
            assert(j != i);
            assert(t0.entries@[j].key == k);
        }
    }
    assert forall|k: ConnectionKey| k != key && t0.has_key(k) implies t1.conn_at(k) == t0.conn_at(
        k,
    ) by {
        let j = t0.spec_index_of(k);
        assert(t0.entries@[j].key == k);
        assert(j != i);
        lemma_key_at(t1, k, j);
    }
}

} // verus!
