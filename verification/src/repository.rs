//! The snapshot store: an append-only log of town snapshots with
//! latest-wins retrieval by the case-insensitive key. `put` is an upsert —
//! every write is a fresh snapshot, and reads return the one with the
//! greatest recency timestamp, the last-written winning among equals.

use vstd::prelude::*;
use crate::town::Town;
use crate::text::{lower_of, lowercase, str_eq};

verus! {

pub open spec fn key_matches(t: Town, k: Seq<char>) -> bool {
    t.town_name_lower@ == k
}

pub open spec fn has_key(log: Seq<Town>, k: Seq<char>) -> bool {
    exists|j: int| 0 <= j < log.len() && key_matches(log[j], k)
}

/// `log[i]` is the latest snapshot for key `k`: it matches, no snapshot for
/// the key is newer, and every later one for the key is strictly older.
pub open spec fn is_latest(log: Seq<Town>, k: Seq<char>, i: int) -> bool {
    &&& 0 <= i < log.len()
    &&& key_matches(log[i], k)
    &&& forall|j: int|
        0 <= j < log.len() && key_matches(log[j], k) ==> log[j].last_updated
            <= log[i].last_updated
    &&& forall|j: int|
        i < j < log.len() && key_matches(log[j], k) ==> log[j].last_updated
            < log[i].last_updated
}

/// Every persisted snapshot keeps the key invariant.
pub open spec fn all_wf(log: Seq<Town>) -> bool {
    forall|i: int| 0 <= i < log.len() ==> log[i].wf()
}

/// The in-memory snapshot store.
pub struct TownRepository {
    log: Vec<Town>,
}

impl View for TownRepository {
    type V = Seq<Town>;

    closed spec fn view(&self) -> Seq<Town> {
        self.log@
    }
}

impl TownRepository {
    /// An empty store.
    pub fn new() -> (r: TownRepository)
        ensures
            r@ == Seq::<Town>::empty(),
    {
        TownRepository { log: Vec::new() }
    }

    /// How many snapshots were ever persisted.
    pub fn len(&self) -> (r: usize)
        ensures
            r == self@.len(),
    {
        self.log.len()
    }

    /// Persists one snapshot. Overwriting is always permitted: the write
    /// appends, and reads resolve by recency.
    pub fn put(&mut self, town: Town)
        requires
            town.wf(),
        ensures
            final(self)@ == old(self)@.push(town),
            all_wf(old(self)@) ==> all_wf(final(self)@),
    {
        self.log.push(town);
    }

    /// The snapshot with the greatest `last_updated` for the (already
    /// lowercased) key, or nothing when the key was never persisted.
    pub fn get_latest(&self, name_lower: &str) -> (r: Option<&Town>)
        ensures
            match r {
                Some(t) => exists|i: int| is_latest(self@, name_lower@, i) && *t == self@[i],
                None => !has_key(self@, name_lower@),
            },
    {
        let mut best: Option<usize> = None;
        let mut i: usize = 0;
        while i < self.log.len()
            invariant
                i <= self.log@.len(),
                match best {
                    Some(b) => {
                        &&& 0 <= b < i
                        &&& key_matches(self.log@[b as int], name_lower@)
                        &&& forall|j: int|
                            0 <= j < i && key_matches(self.log@[j], name_lower@)
                                ==> self.log@[j].last_updated <= self.log@[b as int].last_updated
                        &&& forall|j: int|
                            b < j < i && key_matches(self.log@[j], name_lower@)
                                ==> self.log@[j].last_updated < self.log@[b as int].last_updated
                    },
                    None => forall|j: int|
                        0 <= j < i ==> !key_matches(self.log@[j], name_lower@),
                },
            decreases self.log@.len() - i,
        {
            if str_eq(self.log[i].town_name_lower.as_str(), name_lower) {
                let take_it = match best {
                    Some(b) => self.log[i].last_updated >= self.log[b].last_updated,
                    None => true,
                };
                if take_it {
                    best = Some(i);
                }
            }
            i += 1;
        }
        match best {
            Some(b) => {
                proof {
                    assert(is_latest(self@, name_lower@, b as int));
                }
                Some(&self.log[b])
            },
            None => None,
        }
    }

    /// Case-insensitive lookup: lowercases the queried name, then resolves by
    /// recency.
    pub fn get_town(&self, town_name: &str) -> (r: Option<&Town>)
        ensures
            match r {
                Some(t) => exists|i: int|
                    is_latest(self@, lower_of(town_name@), i) && *t == self@[i],
                None => !has_key(self@, lower_of(town_name@)),
            },
    {
        let key = lowercase(town_name);
        self.get_latest(key.as_str())
    }
}

/// Idempotent-latest: persisting snapshots for one key with timestamps `t1`
/// then `t2 > t1` makes the newer one the latest, and the order of arrival
/// does not matter — only the timestamp comparison — provided nothing already
/// persisted for the key is as new.
pub proof fn lemma_idempotent_latest(log: Seq<Town>, a: Town, b: Town, k: Seq<char>)
    requires
        key_matches(a, k),
        key_matches(b, k),
        a.last_updated < b.last_updated,
        forall|i: int|
            0 <= i < log.len() && key_matches(log[i], k) ==> log[i].last_updated
                < b.last_updated,
    ensures
        is_latest(log.push(a).push(b), k, log.len() + 1int),
        is_latest(log.push(b).push(a), k, log.len() as int),
{
    let ab = log.push(a).push(b);
    assert(ab[log.len() + 1int] == b);
    assert forall|j: int| 0 <= j < ab.len() && key_matches(ab[j], k) implies ab[j].last_updated
        <= ab[log.len() + 1int].last_updated by {
        if j < log.len() {
            assert(ab[j] == log[j]);
        } else if j == log.len() {
            assert(ab[j] == a);
        }
    }
    let ba = log.push(b).push(a);
    assert(ba[log.len() as int] == b);
    assert(ba[log.len() + 1int] == a);
    assert forall|j: int| 0 <= j < ba.len() && key_matches(ba[j], k) implies ba[j].last_updated
        <= ba[log.len() as int].last_updated by {
        if j < log.len() {
            assert(ba[j] == log[j]);
        }
    }
    assert forall|j: int|
        log.len() < j < ba.len() && key_matches(ba[j], k) implies ba[j].last_updated < ba[log.len() as int].last_updated by {
        assert(ba[j] == a);
    }
}

} // verus!
