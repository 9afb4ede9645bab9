//! The player connections of a server process, as the manager sees them.

use std::collections::HashMap;
use vstd::prelude::*;
use vstd::string::*;
use crate::auth::{elapsed_secs, secs_since};
use crate::maps::{keys_of, lemma_take_to_set, lists};

verus! {

/// One player connection.
#[derive(Debug, Clone, PartialEq, Eq)]
pub struct ConnRecord {
    /// Database row of its tunnel.
    pub db_id: u32,
    pub tunnel_id: u32,
    pub peer_ip: String,
    pub bytes_in: u64,
    pub bytes_out: u64,
    /// Bytes in the second before the last tick.
    pub bytes_in_per_sec: u64,
    pub bytes_out_per_sec: u64,
    pub connected_at: u64,
}

/// One player connection as it is reported.
#[derive(Debug, Clone, PartialEq, Eq)]
pub struct ConnectionInfo {
    pub stream_id: u64,
    pub db_id: u32,
    pub tunnel_id: u32,
    pub peer_ip: String,
    pub bytes_in: u64,
    pub bytes_out: u64,
    pub bytes_in_per_sec: u64,
    pub bytes_out_per_sec: u64,
    pub connected_secs: u64,
}

/// All player connections, by stream.
#[derive(Debug)]
pub struct ConnRegistry {
    records: HashMap<u64, ConnRecord>,
}

/// The byte counts at the previous tick, by stream: in, then out.
#[derive(Debug)]
pub struct RateSnapshot {
    counts: HashMap<u64, (u64, u64)>,
}

impl View for ConnRegistry {
    type V = Map<u64, ConnRecord>;

    closed spec fn view(&self) -> Map<u64, ConnRecord> {
        self.records@
    }
}

impl View for RateSnapshot {
    type V = Map<u64, (u64, u64)>;

    closed spec fn view(&self) -> Map<u64, (u64, u64)> {
        self.counts@
    }
}

/// A connection that has just begun.
pub open spec fn fresh_record(db_id: u32, tunnel_id: u32, peer_ip: String, now: u64) -> ConnRecord {
    ConnRecord {
        db_id,
        tunnel_id,
        peer_ip,
        bytes_in: 0,
        bytes_out: 0,
        bytes_in_per_sec: 0,
        bytes_out_per_sec: 0,
        connected_at: now,
    }
}

/// `info` reports the record `r` of a stream at time `now`.
pub open spec fn reports(info: ConnectionInfo, stream_id: u64, r: ConnRecord, now: u64) -> bool {
    &&& info.stream_id == stream_id
    &&& info.db_id == r.db_id
    &&& info.tunnel_id == r.tunnel_id
    &&& info.peer_ip@ == r.peer_ip@
    &&& info.bytes_in == r.bytes_in
    &&& info.bytes_out == r.bytes_out
    &&& info.bytes_in_per_sec == r.bytes_in_per_sec
    &&& info.bytes_out_per_sec == r.bytes_out_per_sec
    &&& info.connected_secs == secs_since(r.connected_at, now)
}

/// How far a counter has come, or nothing where it stands lower than before.
pub open spec fn gain(now: u64, before: u64) -> u64 {
    if now >= before {
        (now - before) as u64
    } else {
        0
    }
}

/// A record after a tick: its rates are what came since the previous tick,
/// nothing for a connection that the previous tick did not see.
pub open spec fn ticked(r: ConnRecord, before: Option<(u64, u64)>) -> ConnRecord {
    ConnRecord {
        bytes_in_per_sec: match before {
            Some(p) => gain(r.bytes_in, p.0),
            None => 0,
        },
        bytes_out_per_sec: match before {
            Some(p) => gain(r.bytes_out, p.1),
            None => 0,
        },
        ..r
    }
}

/// What a map holds for a key.
pub open spec fn looked_up<K, V>(m: Map<K, V>, k: K) -> Option<V> {
    if m.contains_key(k) {
        Some(m[k])
    } else {
        None
    }
}

/// How a request to force a player off is answered.
#[derive(Debug, Clone, Copy, PartialEq, Eq, Structural)]
pub enum Disconnect {
    /// The connection is gone, and its task is to stop.
    Kicked,
    /// There is no such connection.
    NotFound,
}

impl Disconnect {
    /// The HTTP status of the answer.
    pub fn status(&self) -> (code: u16)
        ensures
            code == (match self {
                Disconnect::Kicked => 200u16,
                Disconnect::NotFound => 404u16,
            }),
    {
        match self {
            Disconnect::Kicked => 200,
            Disconnect::NotFound => 404,
        }
    }
}

impl RateSnapshot {
    /// Nothing was seen yet.
    pub fn new() -> (r: Self)
        ensures
            r@ == Map::<u64, (u64, u64)>::empty(),
    {
        RateSnapshot { counts: HashMap::new() }
    }
}

impl ConnRegistry {
    /// No connection.
    pub fn new() -> (r: Self)
        ensures
            r@ == Map::<u64, ConnRecord>::empty(),
    {
        ConnRegistry { records: HashMap::new() }
    }

    /// A player has connected.
    pub fn register(&mut self, stream_id: u64, db_id: u32, tunnel_id: u32, peer_ip: String, now: u64)
        ensures
            final(self)@ == old(self)@.insert(
                stream_id,
                fresh_record(db_id, tunnel_id, peer_ip, now),
            ),
    {
        broadcast use vstd::std_specs::hash::group_hash_axioms;

        self.records.insert(
            stream_id,
            ConnRecord {
                db_id,
                tunnel_id,
                peer_ip,
                bytes_in: 0,
                bytes_out: 0,
                bytes_in_per_sec: 0,
                bytes_out_per_sec: 0,
                connected_at: now,
            },
        );
    }

    /// What is known of a stream.
    pub fn get(&self, stream_id: u64) -> (r: Option<&ConnRecord>)
        ensures
            match r {
                Some(c) => looked_up(self@, stream_id) == Some(*c),
                None => !self@.contains_key(stream_id),
            },
    {
        broadcast use vstd::std_specs::hash::group_hash_axioms;

        self.records.get(&stream_id)
    }

    /// A connection is over.
    pub fn remove(&mut self, stream_id: u64)
        ensures
            final(self)@ == old(self)@.remove(stream_id),
    {
        broadcast use vstd::std_specs::hash::group_hash_axioms;

        self.records.remove(&stream_id);
        assert(self@ =~= old(self)@.remove(stream_id));
    }

    /// Several connections are over.
    pub fn remove_all(&mut self, stream_ids: &[u64])
        ensures
            final(self)@ == old(self)@.remove_keys(stream_ids@.to_set()),
    {
        let mut i: usize = 0;
        proof {
            assert(stream_ids@.take(0).to_set() =~= Set::<u64>::empty());
            assert(self@ =~= old(self)@.remove_keys(stream_ids@.take(0).to_set()));
        }
        while i < stream_ids.len()
            invariant
                i <= stream_ids@.len(),
                self@ == old(self)@.remove_keys(stream_ids@.take(i as int).to_set()),
            decreases stream_ids@.len() - i,
        {
            let sid: u64 = stream_ids[i];
            self.remove(sid);
            proof {
                lemma_take_to_set(stream_ids@, i as int);
                assert(self@ =~= old(self)@.remove_keys(stream_ids@.take(i + 1).to_set()));
            }
            i += 1;
        }
        proof {
            assert(stream_ids@.take(i as int) =~= stream_ids@);
        }
    }

    /// A player is forced off.
    pub fn disconnect(&mut self, stream_id: u64) -> (r: Disconnect)
        ensures
            r == (if old(self)@.contains_key(stream_id) {
                Disconnect::Kicked
            } else {
                Disconnect::NotFound
            }),
            final(self)@ == old(self)@.remove(stream_id),
    {
        broadcast use vstd::std_specs::hash::group_hash_axioms;

        let known = self.records.contains_key(&stream_id);
        self.remove(stream_id);
        if known {
            Disconnect::Kicked
        } else {
            Disconnect::NotFound
        }
    }

    /// Bytes came from a player. The counter wraps around.
    pub fn add_in(&mut self, stream_id: u64, n: u64)
        ensures
            final(self)@ == if old(self)@.contains_key(stream_id) {
                old(self)@.insert(
                    stream_id,
                    ConnRecord {
                        bytes_in: wrapped_sum(old(self)@[stream_id].bytes_in, n),
                        ..old(self)@[stream_id]
                    },
                )
            } else {
                old(self)@
            },
    {
        broadcast use vstd::std_specs::hash::group_hash_axioms;

        if let Some(r) = self.records.remove(&stream_id) {
            let mut r = r;
            r.bytes_in = r.bytes_in.wrapping_add(n);
            self.records.insert(stream_id, r);
        }
        assert(self@ =~= if old(self)@.contains_key(stream_id) {
            old(self)@.insert(
                stream_id,
                ConnRecord {
                    bytes_in: wrapped_sum(old(self)@[stream_id].bytes_in, n),
                    ..old(self)@[stream_id]
                },
            )
        } else {
            old(self)@
        });
    }

    /// Bytes went to a player. The counter wraps around.
    pub fn add_out(&mut self, stream_id: u64, n: u64)
        ensures
            final(self)@ == if old(self)@.contains_key(stream_id) {
                old(self)@.insert(
                    stream_id,
                    ConnRecord {
                        bytes_out: wrapped_sum(old(self)@[stream_id].bytes_out, n),
                        ..old(self)@[stream_id]
                    },
                )
            } else {
                old(self)@
            },
    {
        broadcast use vstd::std_specs::hash::group_hash_axioms;

        if let Some(r) = self.records.remove(&stream_id) {
            let mut r = r;
            r.bytes_out = r.bytes_out.wrapping_add(n);
            self.records.insert(stream_id, r);
        }
        assert(self@ =~= if old(self)@.contains_key(stream_id) {
            old(self)@.insert(
                stream_id,
                ConnRecord {
                    bytes_out: wrapped_sum(old(self)@[stream_id].bytes_out, n),
                    ..old(self)@[stream_id]
                },
            )
        } else {
            old(self)@
        });
    }

    /// All connections, each reported once, in no particular order.
    pub fn list(&self, now: u64) -> (r: Vec<ConnectionInfo>)
        ensures
            exists|keys: Seq<u64>| #[trigger] lists_connections(r@, keys, self@, now),
    {
        broadcast use vstd::std_specs::hash::group_hash_axioms;

        let keys = keys_of(&self.records);
        let mut r: Vec<ConnectionInfo> = Vec::new();
        let mut i: usize = 0;
        while i < keys.len()
            invariant
                i <= keys@.len(),
                r@.len() == i,
                lists(keys@, self@.dom()),
                forall|j: int|
                    0 <= j < i ==> reports(#[trigger] r@[j], keys@[j], self@[keys@[j]], now),
            decreases keys@.len() - i,
        {
            let sid: u64 = keys[i];
            assert(keys@.contains(sid));
            assert(self@.dom().contains(sid));
            if let Some(c) = self.records.get(&sid) {
                r.push(
                    ConnectionInfo {
                        stream_id: sid,
                        db_id: c.db_id,
                        tunnel_id: c.tunnel_id,
                        peer_ip: c.peer_ip.clone(),
                        bytes_in: c.bytes_in,
                        bytes_out: c.bytes_out,
                        bytes_in_per_sec: c.bytes_in_per_sec,
                        bytes_out_per_sec: c.bytes_out_per_sec,
                        connected_secs: elapsed_secs(c.connected_at, now),
                    },
                );
            }
            i += 1;
        }
        assert(lists_connections(r@, keys@, self@, now));
        r
    }

    /// The rates tick: every connection's rates are set to what came since the
    /// previous tick, and the snapshot becomes the counts of now, of the open
    /// connections alone.
    pub fn update_rates(&mut self, snapshot: &mut RateSnapshot)
        ensures
            final(self)@.dom() == old(self)@.dom(),
            forall|sid: u64| #[trigger]
                final(self)@.contains_key(sid) ==> final(self)@[sid] == ticked(
                    old(self)@[sid],
                    looked_up(old(snapshot)@, sid),
                ),
            final(snapshot)@ == old(self)@.map_values(
                |r: ConnRecord| (r.bytes_in, r.bytes_out),
            ),
    {
        broadcast use vstd::std_specs::hash::group_hash_axioms;

        let ghost start = self@;
        let ghost seen = snapshot@;
        let keys = keys_of(&self.records);
        let mut next: HashMap<u64, (u64, u64)> = HashMap::new();
        let mut i: usize = 0;
        while i < keys.len()
            invariant
                i <= keys@.len(),
                lists(keys@, start.dom()),
                self@.dom() == start.dom(),
                snapshot@ == seen,
                forall|j: int|
                    i <= j < keys@.len() ==> self@[#[trigger] keys@[j]] == start[keys@[j]],
                forall|j: int|
                    0 <= j < i ==> self@[#[trigger] keys@[j]] == ticked(
                        start[keys@[j]],
                        looked_up(seen, keys@[j]),
                    ),
                forall|k: u64| #[trigger]
                    next@.contains_key(k) <==> exists|j: int| 0 <= j < i && keys@[j] == k,
                forall|j: int|
                    0 <= j < i ==> next@[#[trigger] keys@[j]] == (
                        start[keys@[j]].bytes_in,
                        start[keys@[j]].bytes_out,
                    ),
            decreases keys@.len() - i,
        {
            let sid: u64 = keys[i];
            assert(keys@.contains(sid));
            assert(start.dom().contains(sid));
            if let Some(r) = self.records.remove(&sid) {
                let mut r = r;
                let before = match snapshot.counts.get(&sid) {
                    Some(p) => *p,
                    None => (r.bytes_in, r.bytes_out),
                };
                r.bytes_in_per_sec = r.bytes_in.saturating_sub(before.0);
                r.bytes_out_per_sec = r.bytes_out.saturating_sub(before.1);
                next.insert(sid, (r.bytes_in, r.bytes_out));
                self.records.insert(sid, r);
            }
            assert(self@.dom() =~= start.dom());
            i += 1;
        }
        snapshot.counts = next;
        proof {
            assert forall|k: u64| self@.contains_key(k) implies self@[k] == ticked(
                start[k],
                looked_up(seen, k),
            ) by {
                assert(start.dom().contains(k));
                let j = keys@.index_of(k);
                assert(keys@[j] == k);
            }
            assert forall|k: u64|
                #![trigger snapshot@.contains_key(k)]
                snapshot@.contains_key(k) <==> start.contains_key(k) by {
                if start.dom().contains(k) {
                    let j = keys@.index_of(k);
                    assert(keys@[j] == k);
                }
                if snapshot@.contains_key(k) {
                    assert(keys@.contains(k));
                }
            }
            assert(snapshot@ =~= start.map_values(|r: ConnRecord| (r.bytes_in, r.bytes_out)));
        }
    }
}

/// The sum as a counter of 64 bits holds it.
pub open spec fn wrapped_sum(a: u64, b: u64) -> u64 {
    ((a + b) % 0x1_0000_0000_0000_0000) as u64
}

/// `infos` reports the connections of `keys`, in that order, and `keys` are all
/// the streams there are.
pub open spec fn lists_connections(
    infos: Seq<ConnectionInfo>,
    keys: Seq<u64>,
    m: Map<u64, ConnRecord>,
    now: u64,
) -> bool {
    &&& lists(keys, m.dom())
    &&& infos.len() == keys.len()
    &&& forall|j: int|
        0 <= j < keys.len() ==> reports(#[trigger] infos[j], keys[j], m[keys[j]], now)
}

/// A connection that received `n` bytes between two ticks, with no wrap-around,
/// is reported at `n` bytes per second.
pub proof fn law_rate_is_what_came(r: ConnRecord, n: u64, m: u64)
    requires
        r.bytes_in + n <= u64::MAX,
        r.bytes_out + m <= u64::MAX,
    ensures
        ({
            let later = ConnRecord {
                bytes_in: wrapped_sum(r.bytes_in, n),
                bytes_out: wrapped_sum(r.bytes_out, m),
                ..r
            };
            let t = ticked(later, Some((r.bytes_in, r.bytes_out)));
            t.bytes_in_per_sec == n && t.bytes_out_per_sec == m
        }),
{
}

} // verus!
