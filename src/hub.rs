//! The hub's own accounting: the totals over all drivers, and the tap that
//! counts every frame on the bus by system, component and message id.

use vstd::prelude::*;
use crate::frame::{message_id_of, Protocol};
use crate::stats::{counted, empty_inner, sat_add, DriverStatsInfo, DriverStatsInfoInner};

verus! {

pub open spec fn max_u64(a: u64, b: u64) -> u64 {
    if a >= b { a } else { b }
}

/// The sum of two accumulators of one direction; the later update wins.
pub open spec fn merged(a: Option<DriverStatsInfoInner>, b: Option<DriverStatsInfoInner>) -> Option<DriverStatsInfoInner> {
    match (a, b) {
        (None, _) => b,
        (Some(x), None) => Some(x),
        (Some(x), Some(y)) => Some(DriverStatsInfoInner {
            last_update: max_u64(x.last_update, y.last_update),
            messages: sat_add(x.messages, y.messages as int),
            bytes: sat_add(x.bytes, y.bytes as int),
            delay: sat_add(x.delay, y.delay as int),
        }),
    }
}

/// The totals over the first `n` drivers of `s`, each direction apart.
pub open spec fn totals(s: Seq<(String, DriverStatsInfo)>, n: int) -> DriverStatsInfo
    decreases n,
{
    if n <= 0 {
        DriverStatsInfo { input: None, output: None }
    } else {
        let t = totals(s, n - 1);
        DriverStatsInfo {
            input: merged(t.input, s[n - 1].1.input),
            output: merged(t.output, s[n - 1].1.output),
        }
    }
}

fn merge(a: Option<DriverStatsInfoInner>, b: Option<DriverStatsInfoInner>) -> (r: Option<DriverStatsInfoInner>)
    ensures
        r == merged(a, b),
{
    match (a, b) {
        (None, _) => b,
        (Some(x), None) => Some(x),
        (Some(x), Some(y)) => Some(DriverStatsInfoInner {
            last_update: if x.last_update >= y.last_update { x.last_update } else { y.last_update },
            messages: x.messages.saturating_add(y.messages),
            bytes: x.bytes.saturating_add(y.bytes),
            delay: x.delay.saturating_add(y.delay),
        }),
    }
}

/// The hub's totals: the accumulators of all drivers summed, separately for
/// input and output.
pub fn hub_stats(drivers: &Vec<(String, DriverStatsInfo)>) -> (r: DriverStatsInfo)
    ensures
        r == totals(drivers@, drivers@.len() as int),
{
    let mut acc = DriverStatsInfo { input: None, output: None };
    let mut i: usize = 0;
    while i < drivers.len()
        invariant
            i <= drivers@.len(),
            acc == totals(drivers@, i as int),
        decreases drivers@.len() - i,
    {
        acc = DriverStatsInfo {
            input: merge(acc.input, drivers[i].1.input),
            output: merge(acc.output, drivers[i].1.output),
        };
        i = i + 1;
    }
    acc
}

/// Identity of a stream of messages: system id, component id, message id.
#[derive(Clone, Copy, Debug, PartialEq, Eq, Hash)]
pub struct MessageKey {
    pub system_id: u8,
    pub component_id: u8,
    pub message_id: u32,
}

pub open spec fn key_of(p: Protocol) -> MessageKey {
    MessageKey {
        system_id: p.raw()[5],
        component_id: p.raw()[6],
        message_id: message_id_of(p.raw()) as u32,
    }
}

/// The counters kept under `key` in `s`, looking from index `i` on.
pub open spec fn entry_from(s: Seq<(MessageKey, DriverStatsInfoInner)>, key: MessageKey, i: int) -> Option<DriverStatsInfoInner>
    decreases s.len() - i,
{
    if i < 0 || i >= s.len() {
        None
    } else if s[i].0 == key {
        Some(s[i].1)
    } else {
        entry_from(s, key, i + 1)
    }
}

/// Counters per message stream, fed by every frame on the bus.
pub struct MessagesStats {
    entries: Vec<(MessageKey, DriverStatsInfoInner)>,
}

impl MessagesStats {
    /// The counters of each stream seen since the last reset.
    pub closed spec fn entry(self, key: MessageKey) -> Option<DriverStatsInfoInner> {
        entry_from(self.entries@, key, 0)
    }

    pub fn new() -> (r: Self)
        ensures
            forall|k: MessageKey| r.entry(k) is None,
    {
        MessagesStats { entries: Vec::new() }
    }

    fn position(&self, key: MessageKey) -> (r: Option<usize>)
        ensures
            match r {
                Some(i) => i < self.entries@.len() && self.entries@[i as int].0 == key
                    && self.entry(key) == Some(self.entries@[i as int].1)
                    && forall|j: int| 0 <= j < i ==> (#[trigger] self.entries@[j]).0 != key,
                None => self.entry(key) is None && forall|j: int| 0 <= j < self.entries@.len()
                    ==> (#[trigger] self.entries@[j]).0 != key,
            },
    {
        let mut i: usize = 0;
        while i < self.entries.len()
            invariant
                i <= self.entries@.len(),
                entry_from(self.entries@, key, 0) == entry_from(self.entries@, key, i as int),
                forall|j: int| 0 <= j < i ==> (#[trigger] self.entries@[j]).0 != key,
            decreases self.entries@.len() - i,
        {
            let k = self.entries[i].0;
            if k.system_id == key.system_id && k.component_id == key.component_id
                && k.message_id == key.message_id {
                return Some(i);
            }
            i = i + 1;
        }
        None
    }

    /// Counts `frame`, seen on the bus at `now`, under its own stream; every
    /// other stream keeps its counters.
    pub fn update(&mut self, frame: &Protocol, now: u64)
        ensures
            final(self).entry(key_of(*frame)) == Some(
                counted(
                    match old(self).entry(key_of(*frame)) {
                        Some(x) => x,
                        None => empty_inner(),
                    },
                    frame.raw().len(),
                    frame.time(),
                    now,
                ),
            ),
            forall|k: MessageKey| k != key_of(*frame) ==> final(self).entry(k) == old(self).entry(k),
    {
        let key = MessageKey {
            system_id: frame.system_id(),
            component_id: frame.component_id(),
            message_id: frame.message_id(),
        };
        let bytes = frame.raw_bytes().len() as u64;
        let ghost old_entries = self.entries@;
        match self.position(key) {
            Some(i) => {
                let mut inner = self.entries[i].1;
                inner.count(bytes, frame.timestamp(), now);
                self.entries.set(i, (key, inner));
                proof {
                    assert forall|k: MessageKey| #![auto] true implies
                        entry_from(self.entries@, k, 0) == if k == key { Some(inner) } else { entry_from(old_entries, k, 0) } by {
                        self.lemma_entry_set(old_entries, k, i as int, 0);
                    }
                }
            },
            None => {
                let mut inner = DriverStatsInfoInner { last_update: 0, messages: 0, bytes: 0, delay: 0 };
                inner.count(bytes, frame.timestamp(), now);
                self.entries.push((key, inner));
                proof {
                    assert forall|k: MessageKey| #![auto] true implies
                        entry_from(self.entries@, k, 0) == if k == key { Some(inner) } else { entry_from(old_entries, k, 0) } by {
                        Self::lemma_entry_push(old_entries, key, inner, k, 0);
                    }
                }
            },
        }
    }

    proof fn lemma_entry_set(self, old_entries: Seq<(MessageKey, DriverStatsInfoInner)>, k: MessageKey, i: int, j: int)
        requires
            0 <= i < old_entries.len(),
            0 <= j <= old_entries.len(),
            self.entries@ == old_entries.update(i, (old_entries[i].0, self.entries@[i].1)),
            forall|m: int| 0 <= m < i ==> (#[trigger] old_entries[m]).0 != old_entries[i].0,
        ensures
            j <= i ==> entry_from(self.entries@, k, j) == if k == old_entries[i].0 {
                Some(self.entries@[i].1)
            } else {
                entry_from(old_entries, k, j)
            },
            j > i ==> entry_from(self.entries@, k, j) == entry_from(old_entries, k, j),
        decreases old_entries.len() - j,
    {
        if j < old_entries.len() {
            self.lemma_entry_set(old_entries, k, i, j + 1);
        }
    }

    proof fn lemma_entry_push(
        old_entries: Seq<(MessageKey, DriverStatsInfoInner)>,
        key: MessageKey,
        inner: DriverStatsInfoInner,
        k: MessageKey,
        j: int,
    )
        requires
            0 <= j <= old_entries.len(),
            forall|m: int| 0 <= m < old_entries.len() ==> (#[trigger] old_entries[m]).0 != key,
        ensures
            entry_from(old_entries.push((key, inner)), k, j) == if k == key {
                Some(inner)
            } else {
                entry_from(old_entries, k, j)
            },
        decreases old_entries.len() - j,
    {
        let s = old_entries.push((key, inner));
        if j < old_entries.len() {
            assert(s[j] == old_entries[j]);
            Self::lemma_entry_push(old_entries, key, inner, k, j + 1);
        } else {
            assert(s[j] == (key, inner));
            assert(entry_from(s, k, j + 1) is None);
        }
    }

    /// The counters of `key`, if any frame of that stream was seen.
    pub fn get(&self, key: MessageKey) -> (r: Option<DriverStatsInfoInner>)
        ensures
            r == self.entry(key),
    {
        match self.position(key) {
            Some(i) => Some(self.entries[i].1),
            None => None,
        }
    }

    /// Every stream seen, with its counters, in order of first appearance.
    pub fn all(&self) -> (r: Vec<(MessageKey, DriverStatsInfoInner)>)
        ensures
            forall|k: MessageKey| #[trigger] entry_from(r@, k, 0) == self.entry(k),
    {
        let mut out: Vec<(MessageKey, DriverStatsInfoInner)> = Vec::new();
        let mut i: usize = 0;
        while i < self.entries.len()
            invariant
                i <= self.entries@.len(),
                out@ == self.entries@.subrange(0, i as int),
            decreases self.entries@.len() - i,
        {
            out.push(self.entries[i]);
            i = i + 1;
            proof {
                assert(out@ =~= self.entries@.subrange(0, i as int));
            }
        }
        proof {
            assert(out@ =~= self.entries@);
        }
        out
    }

    pub fn reset(&mut self)
        ensures
            forall|k: MessageKey| final(self).entry(k) is None,
    {
        self.entries = Vec::new();
    }
}

/// The drivers known to the hub, each under an id minted when it was added.
/// Ids are never reused.
pub struct Registry<T> {
    entries: Vec<(u64, T)>,
    next_id: u64,
    contents: Ghost<Map<u64, T>>,
}

impl<T> Registry<T> {
    /// What the registry holds: each id with its entry.
    pub closed spec fn view(&self) -> Map<u64, T> {
        self.contents@
    }

    /// Every id handed out so far is below this one.
    pub closed spec fn issued_below(&self) -> u64 {
        self.next_id
    }

    /// Ids are below the next one to be issued, distinct, and match the view.
    pub closed spec fn wf(&self) -> bool {
        &&& forall|i: int| 0 <= i < self.entries@.len() ==> (#[trigger] self.entries@[i]).0 < self.next_id
        &&& forall|i: int, j: int| 0 <= i < j < self.entries@.len() ==> (#[trigger] self.entries@[i]).0
            != (#[trigger] self.entries@[j]).0
        &&& forall|i: int| 0 <= i < self.entries@.len() ==> self.contents@.contains_key(
            (#[trigger] self.entries@[i]).0,
        ) && self.contents@[self.entries@[i].0] == self.entries@[i].1
        &&& forall|k: u64| #[trigger] self.contents@.contains_key(k) ==> exists|i: int|
            0 <= i < self.entries@.len() && (#[trigger] self.entries@[i]).0 == k
    }

    pub fn new() -> (r: Self)
        ensures
            r.wf(),
            r@ == Map::<u64, T>::empty(),
    {
        Registry { entries: Vec::new(), next_id: 1, contents: Ghost(Map::empty()) }
    }

    pub fn len(&self) -> (r: usize)
        requires
            self.wf(),
        ensures
            r == self@.len(),
    {
        proof {
            self.lemma_len();
        }
        self.entries.len()
    }

    proof fn lemma_len(&self)
        requires
            self.wf(),
        ensures
            self@.len() == self.entries@.len(),
            self@.dom().finite(),
    {
        let keys = Seq::new(self.entries@.len(), |i: int| self.entries@[i].0);
        assert(keys.no_duplicates());
        assert(keys.to_set() =~= self@.dom()) by {
            assert forall|k: u64| #[trigger] self@.dom().contains(k) implies keys.to_set().contains(k) by {
                let i = choose|i: int| 0 <= i < self.entries@.len() && (#[trigger] self.entries@[i]).0 == k;
                assert(keys[i] == k);
            }
            assert forall|k: u64| #[trigger] keys.to_set().contains(k) implies self@.dom().contains(k) by {
                let i = choose|i: int| 0 <= i < keys.len() && keys[i] == k;
                assert(self.entries@[i].0 == k);
            }
        }
        keys.unique_seq_to_set();
    }

    fn position(&self, id: u64) -> (r: Option<usize>)
        ensures
            match r {
                Some(i) => i < self.entries@.len() && self.entries@[i as int].0 == id,
                None => forall|j: int| 0 <= j < self.entries@.len() ==> (#[trigger] self.entries@[j]).0 != id,
            },
    {
        let mut i: usize = 0;
        while i < self.entries.len()
            invariant
                i <= self.entries@.len(),
                forall|j: int| 0 <= j < i ==> (#[trigger] self.entries@[j]).0 != id,
            decreases self.entries@.len() - i,
        {
            if self.entries[i].0 == id {
                return Some(i);
            }
            i = i + 1;
        }
        None
    }

    /// Adds `value` under a fresh id and returns that id; returns nothing, and
    /// changes nothing, once every id has been used.
    pub fn add(&mut self, value: T) -> (r: Option<u64>)
        requires
            old(self).wf(),
        ensures
            final(self).wf(),
            match r {
                Some(id) => {
                    &&& !old(self)@.contains_key(id)
                    &&& final(self)@ == old(self)@.insert(id, value)
                    &&& old(self).issued_below() <= id < final(self).issued_below()
                },
                None => final(self)@ == old(self)@ && old(self).issued_below() == u64::MAX,
            },
    {
        if self.next_id == u64::MAX {
            return None;
        }
        let id = self.next_id;
        let ghost old_entries = self.entries@;
        let ghost old_map = self.contents@;
        proof {
            if old_map.contains_key(id) {
                let i = choose|i: int| 0 <= i < old_entries.len() && (#[trigger] old_entries[i]).0 == id;
                assert(old_entries[i].0 < id);
            }
        }
        let ghost new_map = old_map.insert(id, value);
        self.entries.push((id, value));
        self.next_id = id + 1;
        self.contents = Ghost(new_map);
        proof {
            let e = self.entries@;
            assert(e.len() == old_entries.len() + 1);
            assert forall|i: int| 0 <= i < old_entries.len() implies #[trigger] e[i] == old_entries[i] by {}
            assert forall|k: u64| #[trigger] new_map.contains_key(k) implies exists|i: int|
                0 <= i < e.len() && (#[trigger] e[i]).0 == k by {
                if k == id {
                    assert(e[old_entries.len() as int].0 == k);
                } else {
                    let i = choose|i: int| 0 <= i < old_entries.len() && (#[trigger] old_entries[i]).0 == k;
                    assert(e[i].0 == k);
                }
            }
        }
        Some(id)
    }

    /// Removes the entry under `id` and returns it, if there is one.
    pub fn remove(&mut self, id: u64) -> (r: Option<T>)
        requires
            old(self).wf(),
        ensures
            final(self).wf(),
            match r {
                Some(v) => old(self)@.contains_key(id) && old(self)@[id] == v,
                None => !old(self)@.contains_key(id),
            },
            final(self)@ == old(self)@.remove(id),
            final(self).issued_below() == old(self).issued_below(),
    {
        match self.position(id) {
            None => {
                proof {
                    assert(!self.contents@.contains_key(id));
                    assert(self.contents@.remove(id) =~= self.contents@);
                }
                None
            },
            Some(i) => {
                let ghost old_entries = self.entries@;
                let ghost old_map = self.contents@;
                let ghost new_map = old_map.remove(id);
                let (_, v) = self.entries.remove(i);
                self.contents = Ghost(new_map);
                proof {
                    let e = self.entries@;
                    assert(e == old_entries.remove(i as int));
                    assert forall|j: int| 0 <= j < e.len() implies #[trigger] e[j] == (if j < i {
                        old_entries[j]
                    } else {
                        old_entries[j + 1]
                    }) by {}
                    assert forall|j: int| 0 <= j < e.len() implies (#[trigger] e[j]).0 != id by {
                        if j < i {
                            assert(old_entries[j].0 != old_entries[i as int].0);
                        } else {
                            assert(old_entries[j + 1].0 != old_entries[i as int].0);
                        }
                    }
                    assert forall|k: u64| #[trigger] new_map.contains_key(k) implies exists|j: int|
                        0 <= j < e.len() && (#[trigger] e[j]).0 == k by {
                        let m = choose|m: int| 0 <= m < old_entries.len() && (#[trigger] old_entries[m]).0 == k;
                        if m < i {
                            assert(e[m].0 == k);
                        } else {
                            assert(m != i);
                            assert(e[m - 1].0 == k);
                        }
                    }
                    assert forall|a: int, b: int| 0 <= a < b < e.len() implies (#[trigger] e[a]).0
                        != (#[trigger] e[b]).0 by {
                        let oa = if a < i { a } else { a + 1 };
                        let ob = if b < i { b } else { b + 1 };
                        assert(e[a] == old_entries[oa]);
                        assert(e[b] == old_entries[ob]);
                    }
                }
                Some(v)
            },
        }
    }

    /// The entry under `id`, if there is one.
    pub fn get(&self, id: u64) -> (r: Option<&T>)
        requires
            self.wf(),
        ensures
            match r {
                Some(v) => self@.contains_key(id) && self@[id] == *v,
                None => !self@.contains_key(id),
            },
    {
        match self.position(id) {
            Some(i) => Some(&self.entries[i].1),
            None => None,
        }
    }

    /// The ids held, in the order they were added.
    pub fn ids(&self) -> (r: Vec<u64>)
        requires
            self.wf(),
        ensures
            r@.len() == self@.len(),
            forall|id: u64| self@.contains_key(id) <==> r@.contains(id),
    {
        proof {
            self.lemma_len();
        }
        let mut out: Vec<u64> = Vec::new();
        let mut i: usize = 0;
        while i < self.entries.len()
            invariant
                i <= self.entries@.len(),
                out@.len() == i,
                forall|j: int| 0 <= j < i ==> #[trigger] out@[j] == self.entries@[j].0,
            decreases self.entries@.len() - i,
        {
            out.push(self.entries[i].0);
            i = i + 1;
        }
        proof {
            assert forall|id: u64| self@.contains_key(id) <==> out@.contains(id) by {
                if self@.contains_key(id) {
                    let m = choose|m: int| 0 <= m < self.entries@.len() && (#[trigger] self.entries@[m]).0 == id;
                    assert(out@[m] == id);
                }
                if out@.contains(id) {
                    let m = choose|m: int| 0 <= m < out@.len() && out@[m] == id;
                    assert(self.entries@[m].0 == id);
                }
            }
        }
        out
    }
}

} // verus!
