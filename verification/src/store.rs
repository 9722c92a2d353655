//! In-memory handle stores with bounded capacity.
//!
//! Each document is kept under a random UUID handle. Every access stamps the
//! entry with the next tick of the store's clock (its recency) and with the
//! current instant. Inserting first drops the entries that have been idle for
//! the time-to-live or longer, then, at capacity, the least recently used
//! entry.

use vstd::prelude::*;

use crate::engine::chart::string_views;
use crate::engine::{first_index, lemma_first_index, lemma_first_index_at, lemma_first_index_push, Document};
use crate::sequence::Sequence;
use crate::text::str_eq;

verus! {

#[verifier::external_type_specification]
#[verifier::external_body]
pub struct ExInstant(std::time::Instant);

/// The current instant (`Instant::now`).
#[verifier::external_body]
fn instant_now() -> (r: std::time::Instant) {
    std::time::Instant::now()
}

/// The time since `t` (`Instant::elapsed`). It depends on the clock;
/// nothing is promised of it.
#[verifier::external_body]
fn instant_elapsed(t: &std::time::Instant) -> (r: std::time::Duration) {
    t.elapsed()
}

/// The whole seconds of `d` (`Duration::as_secs`). A `Duration` is opaque
/// here, so nothing is stated of the number.
#[verifier::external_body]
fn duration_secs(d: &std::time::Duration) -> (r: u64) {
    d.as_secs()
}

/// A fresh random handle: a version-4 UUID in its hyphenated lower-case
/// form (`Uuid::new_v4().to_string()`), 36 characters long.
#[verifier::external_body]
fn new_handle() -> (r: String)
    ensures
        r@.len() == 36,
{
    uuid::Uuid::new_v4().to_string()
}

/// Default number of documents a store holds.
pub const CAPACITY: usize = 50;

/// Default idle time, in seconds, after which an entry is dropped.
pub const TTL_SECS: u64 = 1800;

/// One stored document.
pub struct Slot<T> {
    pub handle: String,
    pub item: T,
    /// Clock tick of the last access.
    pub last_used: u64,
    /// Instant of the last access.
    pub touched: std::time::Instant,
}

/// Documents keyed by handle, with LRU eviction and idle expiry.
pub struct HandleStore<T> {
    slots: Vec<Slot<T>>,
    capacity: usize,
    ttl_secs: u64,
    clock: u64,
}

/// The store of flowchart documents.
pub type FlowchartStore = HandleStore<Document>;

/// The store of sequence diagrams (same policy as [`FlowchartStore`]).
pub type SequenceStore = HandleStore<Sequence>;

pub open spec fn slot_handles<T>(s: Seq<Slot<T>>) -> Seq<Seq<char>> {
    s.map_values(|x: Slot<T>| x.handle@)
}

/// No two entries share a handle.
pub open spec fn unique_handles<T>(s: Seq<Slot<T>>) -> bool {
    forall|a: int, b: int|
        0 <= a < s.len() && 0 <= b < s.len() && a != b ==> #[trigger] s[a].handle@ != #[trigger] s[b].handle@
}

/// No entry has a recency below `slots[i]`'s.
pub open spec fn least_recent<T>(slots: Seq<Slot<T>>, i: int) -> bool {
    &&& 0 <= i < slots.len()
    &&& forall|j: int| 0 <= j < slots.len() ==> slots[i].last_used <= #[trigger] slots[j].last_used
}

/// `slots[i]` is the first of the least recently used entries.
pub open spec fn first_least_recent<T>(slots: Seq<Slot<T>>, i: int) -> bool {
    &&& least_recent(slots, i)
    &&& forall|j: int| 0 <= j < i ==> slots[i].last_used < #[trigger] slots[j].last_used
}

/// The entries of `s` whose verdict in `idle` is false, in their order.
pub open spec fn survivors<T>(s: Seq<Slot<T>>, idle: Seq<bool>) -> Seq<Slot<T>>
    decreases s.len(),
{
    if s.len() == 0 {
        Seq::empty()
    } else {
        let rest = survivors(s.drop_last(), idle.drop_last());
        if idle.last() {
            rest
        } else {
            rest.push(s.last())
        }
    }
}

/// What a store of capacity `cap` keeps of `kept` to make room for one
/// more entry: at capacity, the first least recently used entry goes.
pub open spec fn without_lru<T>(kept: Seq<Slot<T>>, cap: nat) -> Seq<Slot<T>> {
    if kept.len() >= cap && kept.len() > 0 {
        kept.remove(choose|k: int| first_least_recent(kept, k))
    } else {
        kept
    }
}

/// `s` less the entry holding handle `h`, if one does.
pub open spec fn without_handle<T>(s: Seq<Slot<T>>, h: Seq<char>) -> Seq<Slot<T>> {
    match first_index(slot_handles(s), h) {
        Some(j) => s.remove(j),
        None => s,
    }
}

/// The idle verdict on each elapsed time: idle once `ttl` whole seconds
/// have passed.
pub open spec fn idle_verdicts(secs: Seq<u64>, ttl: u64) -> Seq<bool> {
    secs.map_values(|x: u64| x >= ttl)
}

/// What inserting under handle `h` keeps of `old`, the entries having been
/// idle for `secs` seconds: those not idle for `ttl`, less the least
/// recently used one when the store is full, less any entry already holding
/// `h`.
pub open spec fn kept_on_insert<T>(
    old: Seq<Slot<T>>,
    secs: Seq<u64>,
    ttl: u64,
    cap: nat,
    h: Seq<char>,
) -> Seq<Slot<T>> {
    without_handle(without_lru(survivors(old, idle_verdicts(secs, ttl)), cap), h)
}

/// There is one first least recently used entry.
pub proof fn lemma_first_least_recent_unique<T>(s: Seq<Slot<T>>, a: int, b: int)
    requires
        first_least_recent(s, a),
        first_least_recent(s, b),
    ensures
        a == b,
{
    if a < b {
        assert(s[b].last_used < s[a].last_used);
        assert(s[a].last_used <= s[b].last_used);
    } else if b < a {
        assert(s[a].last_used < s[b].last_used);
        assert(s[b].last_used <= s[a].last_used);
    }
}

/// With unique handles, the entry holding `h` is the first to hold it.
pub proof fn lemma_unique_position<T>(s: Seq<Slot<T>>, h: Seq<char>, p: int)
    requires
        unique_handles(s),
        0 <= p < s.len(),
        s[p].handle@ == h,
    ensures
        first_index(slot_handles(s), h) == Some(p),
{
    assert forall|j: int| 0 <= j < p implies slot_handles(s)[j] != h by {
        assert(s[j].handle@ != s[p].handle@);
    }
    lemma_first_index_at(slot_handles(s), h, p);
}

impl<T> HandleStore<T> {
    pub closed spec fn slots_view(self) -> Seq<Slot<T>> {
        self.slots@
    }

    pub closed spec fn capacity_spec(self) -> nat {
        self.capacity as nat
    }

    pub closed spec fn clock_spec(self) -> u64 {
        self.clock
    }

    /// Seconds of idleness after which an entry is dropped.
    pub closed spec fn ttl_spec(self) -> u64 {
        self.ttl_secs
    }

    /// Handles are unique, the store respects its capacity, and every tick
    /// handed out is below the clock.
    pub closed spec fn wf(self) -> bool {
        &&& unique_handles(self.slots@)
        &&& self.slots@.len() <= self.capacity
        &&& self.capacity >= 1
    }

    /// Position of the entry with handle `h`.
    pub open spec fn position(self, h: Seq<char>) -> Option<int> {
        first_index(slot_handles(self.slots_view()), h)
    }

    /// The document stored under handle `h`, if any.
    pub open spec fn lookup(self, h: Seq<char>) -> Option<T> {
        match self.position(h) {
            Some(i) => Some(self.slots_view()[i].item),
            None => None,
        }
    }

    /// An empty store holding at most [`CAPACITY`] documents, dropping those
    /// idle for [`TTL_SECS`] seconds.
    pub fn new() -> (r: Self)
        ensures
            r.wf(),
            r.slots_view().len() == 0,
            r.capacity_spec() == CAPACITY,
            r.ttl_spec() == TTL_SECS,
    {
        Self::with_capacity(CAPACITY)
    }

    /// An empty store holding at most `capacity` documents.
    pub fn with_capacity(capacity: usize) -> (r: Self)
        requires
            capacity >= 1,
        ensures
            r.wf(),
            r.slots_view().len() == 0,
            r.capacity_spec() == capacity,
            r.ttl_spec() == TTL_SECS,
    {
        HandleStore { slots: Vec::new(), capacity, ttl_secs: TTL_SECS, clock: 0 }
    }

    /// Number of stored documents.
    pub fn len(&self) -> (r: usize)
        ensures
            r == self.slots_view().len(),
    {
        self.slots.len()
    }

    /// Whether the store is empty.
    pub fn is_empty(&self) -> (r: bool)
        ensures
            r == (self.slots_view().len() == 0),
    {
        self.slots.len() == 0
    }

    fn find(&self, handle: &str) -> (r: Option<usize>)
        ensures
            match r {
                Some(i) => self.position(handle@) == Some(i as int),
                None => self.position(handle@) is None,
            },
            r matches Some(i) ==> i < self.slots_view().len() && self.slots_view()[i as int].handle@
                == handle@,
    {
        let ghost hs = slot_handles(self.slots@);
        let mut i: usize = 0;
        while i < self.slots.len()
            invariant
                i <= self.slots@.len(),
                hs == slot_handles(self.slots@),
                forall|j: int| 0 <= j < i ==> hs[j] != handle@,
            decreases self.slots.len() - i,
        {
            if str_eq(self.slots[i].handle.as_str(), handle) {
                proof {
                    lemma_first_index(hs, handle@);
                    if let Some(k) = first_index(hs, handle@) {
                        if k < i {
                            assert(hs[k] != handle@);
                        }
                    }
                    assert(hs[i as int] == handle@);
                }
                return Some(i);
            }
            i += 1;
        }
        proof {
            lemma_first_index(hs, handle@);
        }
        None
    }

    /// Remove a document; whether one was stored under `handle`.
    pub fn remove(&mut self, handle: &str) -> (r: bool)
        requires
            old(self).wf(),
        ensures
            final(self).wf(),
            r == old(self).position(handle@) is Some,
            final(self).lookup(handle@) is None,
            final(self).capacity_spec() == old(self).capacity_spec(),
            final(self).clock_spec() == old(self).clock_spec(),
            final(self).ttl_spec() == old(self).ttl_spec(),
            match old(self).position(handle@) {
                Some(i) => final(self).slots_view() == old(self).slots_view().remove(i),
                None => final(self).slots_view() == old(self).slots_view(),
            },
            forall|other: Seq<char>|
                other != handle@ ==> #[trigger] final(self).lookup(other) == old(self).lookup(other),
    {
        match self.find(handle) {
            Some(i) => {
                self.slots.remove(i);
                proof {
                    assert forall|a: int, b: int|
                        0 <= a < self.slots@.len() && 0 <= b < self.slots@.len() && a != b implies #[trigger] self.slots@[a].handle@
                        != #[trigger] self.slots@[b].handle@ by {
                        let a2 = if a < i { a } else { a + 1 };
                        let b2 = if b < i { b } else { b + 1 };
                        assert(self.slots@[a] == old(self).slots@[a2]);
                        assert(self.slots@[b] == old(self).slots@[b2]);
                    }
                    lemma_first_index(slot_handles(self.slots@), handle@);
                    assert forall|j: int| 0 <= j < self.slots@.len() implies slot_handles(self.slots@)[j]
                        != handle@ by {
                        let j2 = if j < i { j } else { j + 1 };
                        assert(self.slots@[j] == old(self).slots@[j2]);
                        assert(old(self).slots@[i as int].handle@ == handle@);
                    }
                    assert forall|other: Seq<char>| other != handle@ implies #[trigger] self.lookup(other)
                        == old(self).lookup(other) by {
                        lemma_first_index(slot_handles(old(self).slots@), other);
                        lemma_first_index(slot_handles(self.slots@), other);
                        match first_index(slot_handles(old(self).slots@), other) {
                            Some(p) => {
                                assert(old(self).slots@[p].handle@ == other);
                                assert(p != i);
                                let q = if p < i { p } else { p - 1 };
                                assert(self.slots@[q] == old(self).slots@[p]);
                                lemma_unique_position(self.slots@, other, q);
                            },
                            None => {
                                assert forall|j: int| 0 <= j < self.slots@.len() implies slot_handles(
                                    self.slots@,
                                )[j] != other by {
                                    let j2 = if j < i { j } else { j + 1 };
                                    assert(self.slots@[j] == old(self).slots@[j2]);
                                    assert(slot_handles(old(self).slots@)[j2] != other);
                                }
                            },
                        }
                    }
                }
                true
            },
            None => false,
        }
    }

    /// Borrow a document mutably, marking it as just used.
    pub fn get_mut(&mut self, handle: &str) -> (r: Option<&mut T>)
        requires
            old(self).wf(),
        ensures
            final(self).wf(),
            match old(self).position(handle@) {
                None => r is None && final(self).slots_view() == old(self).slots_view(),
                Some(i) => {
                    &&& r matches Some(x) && *x == old(self).slots_view()[i].item
                    &&& old(self).lookup(handle@) == Some(*r->0)
                    &&& final(self).slots_view().len() == old(self).slots_view().len()
                    &&& final(self).slots_view()[i].handle == old(self).slots_view()[i].handle
                    &&& final(self).slots_view()[i].item == *final(r->0)
                    &&& final(self).slots_view()[i].last_used == old(self).clock_spec()
                    &&& forall|j: int|
                        0 <= j < old(self).slots_view().len() && j != i
                            ==> #[trigger] final(self).slots_view()[j] == old(self).slots_view()[j]
                },
            },
    {
        match self.find(handle) {
            None => None,
            Some(i) => {
                let tick = self.clock;
                self.clock = if self.clock < u64::MAX { self.clock + 1 } else { self.clock };
                self.slots[i].last_used = tick;
                self.slots[i].touched = instant_now();
                Some(&mut self.slots[i].item)
            },
        }
    }

    /// Drop, in place, the entries whose verdict in `idle` is true; the
    /// survivors keep their order.
    fn sweep(&mut self, idle: &Vec<bool>)
        requires
            old(self).wf(),
            idle@.len() == old(self).slots_view().len(),
        ensures
            final(self).wf(),
            final(self).capacity == old(self).capacity,
            final(self).clock == old(self).clock,
            final(self).ttl_secs == old(self).ttl_secs,
            final(self).slots_view() == survivors(old(self).slots_view(), idle@),
    {
        let ghost start = self.slots@;
        proof {
            assert(start.take(0) =~= Seq::<Slot<T>>::empty());
            assert(idle@.take(0) =~= Seq::<bool>::empty());
            assert(self.slots@ =~= survivors(start.take(0), idle@.take(0)) + start.skip(0));
        }
        let mut i: usize = 0;
        let mut done: usize = 0;
        while done < idle.len()
            invariant
                self.wf(),
                start == old(self).slots@,
                idle@.len() == start.len(),
                done <= start.len(),
                i == survivors(start.take(done as int), idle@.take(done as int)).len(),
                self.slots@ == survivors(start.take(done as int), idle@.take(done as int)) + start.skip(
                    done as int,
                ),
                self.capacity == old(self).capacity,
                self.clock == old(self).clock,
                self.ttl_secs == old(self).ttl_secs,
            decreases idle.len() - done,
        {
            let ghost kept = survivors(start.take(done as int), idle@.take(done as int));
            proof {
                assert(self.slots@[i as int] == start[done as int]);
                assert(start.take(done + 1).drop_last() =~= start.take(done as int));
                assert(idle@.take(done + 1).drop_last() =~= idle@.take(done as int));
            }
            if idle[done] {
                let ghost before = self.slots@;
                self.slots.remove(i);
                done += 1;
                proof {
                    assert(survivors(start.take(done as int), idle@.take(done as int)) == kept);
                    assert(self.slots@ =~= kept + start.skip(done as int));
                    assert forall|a: int, b: int|
                        0 <= a < self.slots@.len() && 0 <= b < self.slots@.len() && a != b implies #[trigger] self.slots@[a].handle@
                        != #[trigger] self.slots@[b].handle@ by {
                        let a2 = if a < i { a } else { a + 1 };
                        let b2 = if b < i { b } else { b + 1 };
                        assert(self.slots@[a] == before[a2]);
                        assert(self.slots@[b] == before[b2]);
                    }
                }
            } else {
                done += 1;
                proof {
                    assert(survivors(start.take(done as int), idle@.take(done as int)) == kept.push(
                        start[done - 1],
                    ));
                    assert(self.slots@ =~= kept.push(start[done - 1]) + start.skip(done as int));
                }
                i += 1;
            }
        }
        proof {
            assert(start.take(start.len() as int) =~= start);
            assert(idle@.take(start.len() as int) =~= idle@);
            assert(self.slots@ =~= survivors(start, idle@));
        }
    }

    /// Drop the least recently used entry (the first of them on a tie).
    fn evict_lru(&mut self) -> (k: Ghost<int>)
        requires
            old(self).wf(),
            old(self).slots_view().len() > 0,
        ensures
            final(self).wf(),
            final(self).capacity == old(self).capacity,
            final(self).clock == old(self).clock,
            final(self).ttl_secs == old(self).ttl_secs,
            first_least_recent(old(self).slots_view(), k@),
            final(self).slots_view() == old(self).slots_view().remove(k@),
    {
        let mut best: usize = 0;
        let mut i: usize = 1;
        while i < self.slots.len()
            invariant
                1 <= i <= self.slots@.len(),
                best < i,
                forall|j: int| 0 <= j < i ==> self.slots@[best as int].last_used <= #[trigger] self.slots@[j].last_used,
                forall|j: int| 0 <= j < best ==> self.slots@[best as int].last_used < #[trigger] self.slots@[j].last_used,
            decreases self.slots.len() - i,
        {
            if self.slots[i].last_used < self.slots[best].last_used {
                best = i;
            }
            i += 1;
        }
        self.slots.remove(best);
        proof {
            assert forall|a: int, b: int|
                0 <= a < self.slots@.len() && 0 <= b < self.slots@.len() && a != b implies #[trigger] self.slots@[a].handle@
                != #[trigger] self.slots@[b].handle@ by {
                let a2 = if a < best { a } else { a + 1 };
                let b2 = if b < best { b } else { b + 1 };
                assert(self.slots@[a] == old(self).slots@[a2]);
                assert(self.slots@[b] == old(self).slots@[b2]);
            }
        }
        Ghost(best as int)
    }

    /// Make room for one more entry, given the idle verdict on each entry in
    /// order: the entries found idle go, then, at capacity, the first least
    /// recently used one.
    pub fn make_room(&mut self, idle: &Vec<bool>)
        requires
            old(self).wf(),
            idle@.len() == old(self).slots_view().len(),
        ensures
            final(self).wf(),
            final(self).capacity_spec() == old(self).capacity_spec(),
            final(self).clock_spec() == old(self).clock_spec(),
            final(self).ttl_spec() == old(self).ttl_spec(),
            final(self).slots_view() == without_lru(
                survivors(old(self).slots_view(), idle@),
                old(self).capacity_spec(),
            ),
            final(self).slots_view().len() < final(self).capacity_spec(),
    {
        self.sweep(idle);
        let ghost kept = self.slots@;
        if self.slots.len() >= self.capacity {
            let k = self.evict_lru();
            proof {
                assert(first_least_recent(kept, k@));
                let c = choose|c: int| first_least_recent(kept, c);
                lemma_first_least_recent_unique(kept, k@, c);
            }
        }
    }

    /// Store `item` under `handle`, the stored entries having been idle for
    /// `elapsed` seconds (one number per entry, in order). The entries idle
    /// for the time-to-live go, then, at capacity, the least recently used
    /// one; an entry already under `handle` is replaced. The new entry comes
    /// last and is stamped with the current clock tick.
    pub fn insert_with(&mut self, item: T, elapsed: &Vec<u64>, handle: String)
        requires
            old(self).wf(),
            elapsed@.len() == old(self).slots_view().len(),
        ensures
            final(self).wf(),
            final(self).capacity_spec() == old(self).capacity_spec(),
            final(self).ttl_spec() == old(self).ttl_spec(),
            final(self).clock_spec() == (if old(self).clock_spec() < u64::MAX {
                (old(self).clock_spec() + 1) as u64
            } else {
                old(self).clock_spec()
            }),
            final(self).slots_view().len() >= 1,
            final(self).slots_view().drop_last() == kept_on_insert(
                old(self).slots_view(),
                elapsed@,
                old(self).ttl_spec(),
                old(self).capacity_spec(),
                handle@,
            ),
            final(self).slots_view().last().handle@ == handle@,
            final(self).slots_view().last().item == item,
            final(self).slots_view().last().last_used == old(self).clock_spec(),
            final(self).position(handle@) == Some(final(self).slots_view().len() - 1),
            final(self).lookup(handle@) == Some(item),
            final(self).slots_view().len() <= final(self).capacity_spec(),
    {
        let ttl = self.ttl_secs;
        let mut idle: Vec<bool> = Vec::new();
        let mut j: usize = 0;
        while j < elapsed.len()
            invariant
                j <= elapsed@.len(),
                idle@ == idle_verdicts(elapsed@, ttl).take(j as int),
            decreases elapsed.len() - j,
        {
            idle.push(elapsed[j] >= ttl);
            j += 1;
            proof {
                assert(idle@ =~= idle_verdicts(elapsed@, ttl).take(j as int));
            }
        }
        proof {
            assert(idle@ =~= idle_verdicts(elapsed@, ttl));
        }
        self.make_room(&idle);
        let ghost mid = self.slots@;
        self.remove(handle.as_str());
        let ghost body = self.slots@;
        assert(body == without_handle(mid, handle@));
        proof {
            lemma_first_index(slot_handles(mid), handle@);
            assert(slot_handles(mid).len() == mid.len());
            assert(body.len() <= mid.len());
            lemma_first_index(slot_handles(body), handle@);
        }
        let tick = self.clock;
        self.clock = if self.clock < u64::MAX { self.clock + 1 } else { self.clock };
        let ghost h = handle@;
        self.slots.push(Slot { handle, item, last_used: tick, touched: instant_now() });
        proof {
            assert forall|a: int, b: int|
                0 <= a < self.slots@.len() && 0 <= b < self.slots@.len() && a != b implies #[trigger] self.slots@[a].handle@
                != #[trigger] self.slots@[b].handle@ by {
                if a < body.len() && b < body.len() {
                    assert(self.slots@[a] == body[a]);
                    assert(self.slots@[b] == body[b]);
                } else if a < body.len() {
                    assert(self.slots@[a] == body[a]);
                    assert(slot_handles(body)[a] == body[a].handle@);
                } else {
                    assert(self.slots@[b] == body[b]);
                    assert(slot_handles(body)[b] == body[b].handle@);
                }
            }
            assert(slot_handles(self.slots@) =~= slot_handles(body).push(h));
            lemma_first_index_push(slot_handles(body), h, h);
            assert(self.slots@.drop_last() =~= body);
        }
    }

    /// Store a document under a fresh random handle and return the handle.
    /// The clock is read for how long each entry has been idle; then, as in
    /// [`HandleStore::insert_with`], the entries idle for the time-to-live
    /// go, and at capacity the least recently used one.
    pub fn insert(&mut self, item: T) -> (r: String)
        requires
            old(self).wf(),
        ensures
            final(self).wf(),
            r@.len() == 36,
            final(self).capacity_spec() == old(self).capacity_spec(),
            final(self).ttl_spec() == old(self).ttl_spec(),
            final(self).slots_view().len() >= 1,
            final(self).position(r@) == Some(final(self).slots_view().len() - 1),
            final(self).slots_view().last().item == item,
            final(self).lookup(r@) == Some(item),
            final(self).slots_view().last().last_used == old(self).clock_spec(),
            final(self).slots_view().len() <= final(self).capacity_spec(),
            exists|secs: Seq<u64>|
                secs.len() == old(self).slots_view().len() && #[trigger] kept_on_insert(
                    old(self).slots_view(),
                    secs,
                    old(self).ttl_spec(),
                    old(self).capacity_spec(),
                    r@,
                ) == final(self).slots_view().drop_last(),
    {
        let mut secs: Vec<u64> = Vec::new();
        let mut j: usize = 0;
        while j < self.slots.len()
            invariant
                j <= self.slots@.len(),
                secs@.len() == j,
            decreases self.slots.len() - j,
        {
            let d = instant_elapsed(&self.slots[j].touched);
            secs.push(duration_secs(&d));
            j += 1;
        }
        let handle = new_handle();
        let h2 = crate::text::copy_string(&handle);
        self.insert_with(item, &secs, h2);
        proof {
            assert(kept_on_insert(
                old(self).slots@,
                secs@,
                old(self).ttl_secs,
                old(self).capacity as nat,
                handle@,
            ) == self.slots@.drop_last());
        }
        handle
    }
}

} // verus!
