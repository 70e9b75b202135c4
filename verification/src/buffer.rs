//! Fixed-capacity, key-ordered snapshot storage.
//!
//! A `TimestampedRingBuffer` holds `(key, value)` pairs where the key is a
//! tick or a sequence number. Producers may deliver entries out of order, so
//! the buffer accepts inserts positionally and consumers call `sort` before
//! reading ranges. When the buffer is full, an insert evicts the entry with
//! the smallest key, so the buffer always retains the newest keys it has
//! seen; an insert whose key is not newer than the oldest retained key (or
//! whose key is already present) is stale and leaves the buffer unchanged.

use vstd::prelude::*;

verus! {

/// One buffered item: a value stamped with the tick or sequence key it
/// belongs to.
#[derive(Clone, Copy, Debug)]
pub struct Entry<T> {
    pub key: u64,
    pub value: T,
}

/// An authoritative or speculative value stamped with the tick it was
/// produced at. Buffered under its tick as the key.
#[derive(Clone, Copy, Debug)]
pub struct Snapshot<T> {
    pub tick: u64,
    pub value: T,
}

/// What an insert did.
#[derive(Clone, Copy, Debug, PartialEq, Eq, Structural)]
pub enum InsertOutcome {
    /// The entry was stored, possibly evicting the oldest entry.
    Inserted,
    /// The key was already present, or the buffer was full and the key was
    /// not newer than the oldest retained key; the buffer is unchanged.
    StaleInsert,
}

/// Some entry of `s` carries `key`.
pub open spec fn has_key<T>(s: Seq<Entry<T>>, key: u64) -> bool {
    exists|i: int| 0 <= i < s.len() && (#[trigger] s[i]).key == key
}

/// No two entries of `s` carry the same key.
pub open spec fn distinct_keys<T>(s: Seq<Entry<T>>) -> bool {
    forall|i: int, j: int| 0 <= i < j < s.len() ==> (#[trigger] s[i]).key != (#[trigger] s[j]).key
}

/// Entries appear in strictly increasing key order.
pub open spec fn sorted_strict<T>(s: Seq<Entry<T>>) -> bool {
    forall|i: int, j: int| 0 <= i < j < s.len() ==> (#[trigger] s[i]).key < (#[trigger] s[j]).key
}

/// An insert of `key` is accepted: the key is new, and either there is room
/// or the key is newer than some retained key (in particular the oldest).
pub open spec fn admits<T>(s: Seq<Entry<T>>, cap: int, key: u64) -> bool {
    &&& !has_key(s, key)
    &&& (s.len() < cap || exists|i: int| 0 <= i < s.len() && (#[trigger] s[i]).key < key)
}

/// The entries of `s` with key strictly greater than `since`, in the order
/// they appear in `s`.
pub open spec fn entries_after<T>(s: Seq<Entry<T>>, since: u64) -> Seq<Entry<T>> {
    s.filter(|e: Entry<T>| e.key > since)
}

/// The values of `s`, with the keys stripped.
pub open spec fn values_of<T>(s: Seq<Entry<T>>) -> Seq<T> {
    s.map_values(|e: Entry<T>| e.value)
}

/// Two sorted sequences with the same entries are the same sequence: the
/// sorted order of a buffer is determined by its contents alone.
pub proof fn lemma_sorted_unique<T>(s1: Seq<Entry<T>>, s2: Seq<Entry<T>>)
    requires
        sorted_strict(s1),
        sorted_strict(s2),
        s1.len() == s2.len(),
        forall|e: Entry<T>| s1.contains(e) <==> s2.contains(e),
    ensures
        s1 == s2,
    decreases s1.len(),
{
    if s1.len() == 0 {
        assert(s1 =~= s2);
    } else {
        let n = s1.len() as int;
        let last = s1[n - 1];
        assert(s1.contains(last));
        let j = choose|j: int| 0 <= j < n && s2[j] == last;
        assert(j == n - 1) by {
            if j < n - 1 {
                // something in s2 is newer than s1's newest entry
                let top = s2[n - 1];
                assert(top.key > last.key);
                assert(s2.contains(top));
                assert(s1.contains(top));
                let i = choose|i: int| 0 <= i < n && s1[i] == top;
                assert(s1[i].key <= last.key);
            }
        }
        let r1 = s1.drop_last();
        let r2 = s2.drop_last();
        assert(sorted_strict(r1) && sorted_strict(r2)) by {
            assert(forall|i: int| 0 <= i < n - 1 ==> r1[i] == s1[i] && r2[i] == s2[i]);
        }
        assert forall|e: Entry<T>| r1.contains(e) implies r2.contains(e) by {
            let i = choose|i: int| 0 <= i < r1.len() && r1[i] == e;
            assert(s1[i] == e);
            assert(s1.contains(e));
            assert(s2.contains(e));
            let k = choose|k: int| 0 <= k < n && s2[k] == e;
            assert(k != n - 1) by {
                if k == n - 1 {
                    // e would be s2's newest entry, which is s1's newest,
                    // yet e sits strictly below it in s1
                    assert(e == last);
                    assert(s1[i].key < s1[n - 1].key);
                }
            }
            assert(r2[k] == e);
        }
        assert forall|e: Entry<T>| r2.contains(e) implies r1.contains(e) by {
            let i = choose|i: int| 0 <= i < r2.len() && r2[i] == e;
            assert(s2[i] == e);
            assert(s2.contains(e));
            assert(s1.contains(e));
            let k = choose|k: int| 0 <= k < n && s1[k] == e;
            assert(k != n - 1) by {
                if k == n - 1 {
                    assert(e == last);
                    assert(s2[i].key < s2[n - 1].key);
                    assert(s2[n - 1] == last);
                }
            }
            assert(r1[k] == e);
        }
        lemma_sorted_unique(r1, r2);
        assert(s1 =~= s2) by {
            assert(forall|i: int| 0 <= i < n - 1 ==> s1[i] == r1[i] && s2[i] == r2[i]);
            assert(s2[n - 1] == last);
        }
    }
}

/// Fixed-capacity store of key-stamped values; the core primitive behind
/// input buffering, snapshot history and interpolation.
pub struct TimestampedRingBuffer<T> {
    entries: Vec<Entry<T>>,
    capacity: usize,
    accepted: Ghost<Seq<Entry<T>>>,
}

impl<T> View for TimestampedRingBuffer<T> {
    type V = Seq<Entry<T>>;

    closed spec fn view(&self) -> Seq<Entry<T>> {
        self.entries@
    }
}

impl<T: Copy> TimestampedRingBuffer<T> {
    /// Capacity fixed at creation.
    pub closed spec fn spec_capacity(self) -> int {
        self.capacity as int
    }

    /// Every insert this buffer ever accepted, in order of acceptance; the
    /// ghost record the capacity bound is stated against.
    pub closed spec fn spec_accepted(self) -> Seq<Entry<T>> {
        self.accepted@
    }

    /// The retained entries are always the newest keys among everything
    /// accepted: nothing is lost before the buffer is full, and whatever
    /// eviction dropped is older than everything kept.
    pub open spec fn retains_newest(self) -> bool {
        &&& forall|e: Entry<T>| #[trigger] self@.contains(e) ==> self.spec_accepted().contains(e)
        &&& forall|a: Entry<T>, e: Entry<T>|
            #[trigger] self.spec_accepted().contains(a) && !self@.contains(a)
            && #[trigger] self@.contains(e) ==> a.key < e.key
        &&& (self@.len() < self.spec_capacity() ==>
            forall|a: Entry<T>| #[trigger] self.spec_accepted().contains(a) ==> self@.contains(a))
    }

    /// The buffer's invariant: never above capacity, keys distinct, and
    /// only ever the newest accepted keys retained.
    pub open spec fn wf(self) -> bool {
        &&& distinct_keys(self@)
        &&& self@.len() <= self.spec_capacity()
        &&& self.spec_capacity() >= 1
        &&& self.retains_newest()
    }

    pub fn new(capacity: usize) -> (r: Self)
        requires
            capacity >= 1,
        ensures
            r.wf(),
            r@ =~= Seq::<Entry<T>>::empty(),
            r.spec_capacity() == capacity,
            r.spec_accepted() =~= Seq::<Entry<T>>::empty(),
    {
        TimestampedRingBuffer { entries: Vec::new(), capacity, accepted: Ghost(Seq::empty()) }
    }

    pub fn len(&self) -> (r: usize)
        ensures
            r == self@.len(),
    {
        self.entries.len()
    }

    pub fn capacity(&self) -> (r: usize)
        ensures
            r == self.spec_capacity(),
    {
        self.capacity
    }

    /// Index of some entry carrying `key`, if present.
    fn position_of_key(&self, key: u64) -> (r: Option<usize>)
        ensures
            match r {
                Some(i) => i < self@.len() && self@[i as int].key == key,
                None => !has_key(self@, key),
            },
    {
        let mut i: usize = 0;
        while i < self.entries.len()
            invariant
                i <= self@.len(),
                forall|k: int| 0 <= k < i ==> (#[trigger] self@[k]).key != key,
            decreases self@.len() - i,
        {
            if self.entries[i].key == key {
                return Some(i);
            }
            i = i + 1;
        }
        None
    }

    /// Index of the entry with the smallest key.
    fn position_of_oldest(&self) -> (r: usize)
        requires
            self@.len() > 0,
        ensures
            r < self@.len(),
            forall|k: int| 0 <= k < self@.len() ==> (#[trigger] self@[k]).key >= self@[r as int].key,
    {
        let mut best: usize = 0;
        let mut i: usize = 1;
        while i < self.entries.len()
            invariant
                best < i <= self@.len(),
                forall|k: int| 0 <= k < i ==> (#[trigger] self@[k]).key >= self@[best as int].key,
            decreases self@.len() - i,
        {
            if self.entries[i].key < self.entries[best].key {
                best = i;
            }
            i = i + 1;
        }
        best
    }

    /// Insert a value under `key`. A stale insert (duplicate key, or a full
    /// buffer whose oldest retained key is not older than `key`) leaves the
    /// buffer unchanged; otherwise the entry is stored, evicting the oldest
    /// entry when the buffer is full. Eviction only ever drops the oldest
    /// key, so the retained entries are always the newest keys inserted, and
    /// the buffer never grows beyond its capacity.
    pub fn insert(&mut self, key: u64, value: T) -> (r: InsertOutcome)
        requires
            old(self).wf(),
        ensures
            final(self).wf(),
            final(self).spec_capacity() == old(self).spec_capacity(),
            (r == InsertOutcome::Inserted) <==> admits(old(self)@, old(self).spec_capacity(), key),
            r == InsertOutcome::StaleInsert ==> final(self)@ == old(self)@,
            r == InsertOutcome::Inserted && old(self)@.len() < old(self).spec_capacity() ==>
                final(self)@ == old(self)@.push((Entry { key, value })),
            r == InsertOutcome::Inserted ==> final(self)@.contains((Entry { key, value })),
            r == InsertOutcome::Inserted && old(self)@.len() == old(self).spec_capacity() ==>
                final(self)@.len() == old(self)@.len(),
            // nothing appears from nowhere
            forall|e: Entry<T>| #[trigger] final(self)@.contains(e) ==>
                old(self)@.contains(e) || e == (Entry { key, value }),
            // only the oldest entry is ever dropped
            forall|e: Entry<T>| #[trigger] old(self)@.contains(e)
                && (exists|f: Entry<T>| #[trigger] old(self)@.contains(f) && f.key < e.key) ==>
                final(self)@.contains(e),
            // whatever was dropped is at least as old as everything retained
            forall|d: Entry<T>, e: Entry<T>|
                #[trigger] old(self)@.contains(d) && !final(self)@.contains(d)
                && #[trigger] final(self)@.contains(e) ==> d.key <= e.key,
            // the ghost record of accepted inserts grows by exactly this one
            r == InsertOutcome::Inserted ==>
                final(self).spec_accepted() == old(self).spec_accepted().push((Entry { key, value })),
            r == InsertOutcome::StaleInsert ==>
                final(self).spec_accepted() == old(self).spec_accepted(),
    {
        let ghost pre = self.entries@;
        let ghost hist = self.accepted@;
        let ghost ins = (Entry { key, value });
        if let Some(_) = self.position_of_key(key) {
            return InsertOutcome::StaleInsert;
        }
        if self.entries.len() < self.capacity {
            self.entries.push(Entry { key, value });
            proof {
                assert(self.entries@ == pre.push(ins));
                assert forall|e: Entry<T>| #[trigger] self.entries@.contains(e) implies
                    pre.contains(e) || e == ins by {
                    let i = choose|i: int| 0 <= i < self.entries@.len() && self.entries@[i] == e;
                    if i < pre.len() {
                        assert(pre[i] == e);
                    }
                }
                assert forall|e: Entry<T>| #[trigger] pre.contains(e) implies
                    self.entries@.contains(e) by {
                    let i = choose|i: int| 0 <= i < pre.len() && pre[i] == e;
                    assert(self.entries@[i] == e);
                }
                assert(self.entries@[pre.len() as int] == ins);
                assert(distinct_keys(self.entries@)) by {
                    assert(forall|i: int| 0 <= i < pre.len() ==> (#[trigger] pre[i]).key != key);
                }
            }
            proof {
                self.accepted@ = hist.push(ins);
                assert forall|x: Entry<T>| #[trigger] hist.contains(x) implies
                    self.accepted@.contains(x) by {
                    let i = choose|i: int| 0 <= i < hist.len() && hist[i] == x;
                    assert(self.accepted@[i] == x);
                }
                assert(self.accepted@[hist.len() as int] == ins);
                assert forall|x: Entry<T>| #[trigger] self.accepted@.contains(x) implies
                    hist.contains(x) || x == ins by {
                    let i = choose|i: int| 0 <= i < self.accepted@.len() && self.accepted@[i] == x;
                    if i < hist.len() {
                        assert(hist[i] == x);
                    }
                }
                // nothing had been lost while there was room, so nothing is
                // lost now either
                assert(self.retains_newest()) by {
                    assert forall|a: Entry<T>| #[trigger] self.accepted@.contains(a) implies
                        self.entries@.contains(a) by {
                        if a != ins {
                            assert(hist.contains(a));
                            assert(old(self).spec_accepted().contains(a));
                            assert(old(self)@.len() < old(self).spec_capacity());
                            assert(pre.contains(a));
                        }
                    }
                }
            }
            return InsertOutcome::Inserted;
        }
        let oldest = self.position_of_oldest();
        let ghost j = oldest as int;
        if key <= self.entries[oldest].key {
            proof {
                assert(!admits(pre, old(self).spec_capacity(), key)) by {
                    assert(forall|i: int| 0 <= i < pre.len() ==>
                        (#[trigger] pre[i]).key >= pre[j].key >= key);
                }
            }
            return InsertOutcome::StaleInsert;
        }
        let ghost dropped = pre[j];
        self.entries.remove(oldest);
        self.entries.push(Entry { key, value });
        proof {
            let mid = pre.remove(j);
            pre.remove_ensures(j);
            let post = self.entries@;
            assert(post == mid.push(ins));
            assert(admits(pre, old(self).spec_capacity(), key)) by {
                assert(pre[j].key < key);
            }
            // every entry of `post` is an old entry or the new one
            assert forall|e: Entry<T>| #[trigger] post.contains(e) implies
                pre.contains(e) || e == ins by {
                let i = choose|i: int| 0 <= i < post.len() && post[i] == e;
                if i < mid.len() {
                    if i < j {
                        assert(pre[i] == e);
                    } else {
                        assert(pre[i + 1] == e);
                    }
                }
            }
            // every old entry that is not the oldest survives
            assert forall|e: Entry<T>| #[trigger] pre.contains(e) && e != dropped implies
                post.contains(e) by {
                let i = choose|i: int| 0 <= i < pre.len() && pre[i] == e;
                assert(i != j);
                if i < j {
                    assert(post[i] == e);
                } else {
                    assert(post[i - 1] == e);
                }
            }
            // the oldest entry is gone: a surviving copy would be a second
            // entry with the same key
            assert(!post.contains(dropped)) by {
                if post.contains(dropped) {
                    let i = choose|i: int| 0 <= i < post.len() && post[i] == dropped;
                    assert(ins.key != dropped.key);
                    assert(i < mid.len());
                    if i < j {
                        assert(pre[i] == dropped);
                        assert(pre[i].key == pre[j].key);
                    } else {
                        assert(pre[i + 1] == dropped);
                        assert(pre[i + 1].key == pre[j].key);
                    }
                }
            }
            assert(post.contains(ins)) by {
                assert(post[mid.len() as int] == ins);
            }
            // keys stay distinct
            assert(distinct_keys(post)) by {
                assert forall|a: int, b: int| 0 <= a < b < post.len() implies
                    (#[trigger] post[a]).key != (#[trigger] post[b]).key by {
                    let pa: int = if a < j { a } else { a + 1 };
                    if b < mid.len() {
                        let pb: int = if b < j { b } else { b + 1 };
                        assert(post[a] == pre[pa] && post[b] == pre[pb]);
                    } else {
                        assert(post[b] == ins);
                        assert(post[a] == pre[pa]);
                        assert(!has_key(pre, key));
                        assert(pre[pa].key != key);
                    }
                }
            }
            // the dropped key is the oldest, so everything retained is newer
            assert forall|d: Entry<T>, e: Entry<T>|
                #[trigger] pre.contains(d) && !post.contains(d)
                && #[trigger] post.contains(e) implies d.key <= e.key by {
                assert(d == dropped);
                assert(forall|i: int| 0 <= i < pre.len() ==> (#[trigger] pre[i]).key >= dropped.key);
                if e != ins {
                    assert(pre.contains(e));
                }
            }
            self.accepted@ = hist.push(ins);
            assert forall|x: Entry<T>| #[trigger] hist.contains(x) implies
                self.accepted@.contains(x) by {
                let i = choose|i: int| 0 <= i < hist.len() && hist[i] == x;
                assert(self.accepted@[i] == x);
            }
            assert(self.accepted@[hist.len() as int] == ins);
            assert forall|x: Entry<T>| #[trigger] self.accepted@.contains(x) implies
                hist.contains(x) || x == ins by {
                let i = choose|i: int| 0 <= i < self.accepted@.len() && self.accepted@[i] == x;
                if i < hist.len() {
                    assert(hist[i] == x);
                }
            }
            // every entry of `pre` other than the dropped minimum is strictly
            // newer than it
            assert forall|x: Entry<T>| #[trigger] pre.contains(x) && x != dropped implies
                x.key > dropped.key by {
                let i = choose|i: int| 0 <= i < pre.len() && pre[i] == x;
                assert(i != j);
            }
            // whatever was ever accepted and is not retained now is older
            // than everything retained
            assert(self.retains_newest()) by {
                assert forall|a: Entry<T>, e: Entry<T>|
                    #[trigger] self.accepted@.contains(a) && !post.contains(a)
                    && #[trigger] post.contains(e) implies a.key < e.key by {
                    assert(a != ins);
                    assert(hist.contains(a));
                    if pre.contains(a) {
                        assert(a == dropped);
                        assert(e != dropped);
                        if e == ins {
                            assert(dropped.key < key);
                        } else {
                            assert(pre.contains(e));
                        }
                    } else {
                        assert(a.key < dropped.key) by {
                            assert(pre.contains(dropped)) by {
                                assert(pre[j] == dropped);
                            }
                        }
                        if e == ins {
                            assert(dropped.key < key);
                        } else {
                            assert(pre.contains(e));
                        }
                    }
                }
            }
        }
        InsertOutcome::Inserted
    }

    /// Re-order the contents by key. After sorting, the entries are strictly
    /// increasing in key: the monotonicity the frontier queries rely on.
    pub fn sort(&mut self)
        requires
            old(self).wf(),
        ensures
            final(self).wf(),
            final(self).spec_capacity() == old(self).spec_capacity(),
            sorted_strict(final(self)@),
            final(self)@.len() == old(self)@.len(),
            forall|e: Entry<T>| final(self)@.contains(e) <==> old(self)@.contains(e),
            sorted_strict(old(self)@) ==> final(self)@ == old(self)@,
            final(self).spec_accepted() == old(self).spec_accepted(),
    {
        let ghost pre = self.entries@;
        let mut out: Vec<Entry<T>> = Vec::new();
        while self.entries.len() > 0
            invariant
                self.capacity == old(self).capacity,
                self.accepted == old(self).accepted,
                distinct_keys(self.entries@),
                sorted_strict(out@),
                out@.len() + self.entries@.len() == pre.len(),
                forall|a: int, b: int|
                    0 <= a < out@.len() && 0 <= b < self.entries@.len() ==>
                    (#[trigger] out@[a]).key < (#[trigger] self.entries@[b]).key,
                forall|e: Entry<T>| #[trigger] pre.contains(e) ==>
                    out@.contains(e) || self.entries@.contains(e),
                forall|e: Entry<T>| #[trigger] out@.contains(e) ==> pre.contains(e),
                forall|e: Entry<T>| #[trigger] self.entries@.contains(e) ==> pre.contains(e),
            decreases self.entries@.len(),
        {
            let ghost rest = self.entries@;
            let ghost outpre = out@;
            let j = self.position_of_oldest();
            let ghost ji = j as int;
            let e = self.entries.remove(j);
            out.push(e);
            proof {
                rest.remove_ensures(ji);
                let now = self.entries@;
                // the remaining entries are exactly the old rest minus index j
                assert forall|x: Entry<T>| #[trigger] now.contains(x) implies
                    rest.contains(x) by {
                    let i = choose|i: int| 0 <= i < now.len() && now[i] == x;
                    if i < ji {
                        assert(rest[i] == x);
                    } else {
                        assert(rest[i + 1] == x);
                    }
                }
                assert forall|x: Entry<T>| #[trigger] rest.contains(x) implies
                    now.contains(x) || x == rest[ji] by {
                    let i = choose|i: int| 0 <= i < rest.len() && rest[i] == x;
                    if i < ji {
                        assert(now[i] == x);
                    } else if i > ji {
                        assert(now[i - 1] == x);
                    }
                }
                assert(distinct_keys(now)) by {
                    assert forall|a: int, b: int| 0 <= a < b < now.len() implies
                        (#[trigger] now[a]).key != (#[trigger] now[b]).key by {
                        let pa: int = if a < ji { a } else { a + 1 };
                        let pb: int = if b < ji { b } else { b + 1 };
                        assert(now[a] == rest[pa] && now[b] == rest[pb]);
                    }
                }
                // the extracted entry has a strictly smaller key than what is left
                assert forall|b: int| 0 <= b < now.len() implies
                    e.key < (#[trigger] now[b]).key by {
                    let pb: int = if b < ji { b } else { b + 1 };
                    assert(now[b] == rest[pb]);
                    assert(rest[pb].key >= rest[ji].key);
                    assert(pb != ji);
                }
                // pushing it keeps the output sorted
                assert(out@ == outpre.push(e));
                assert(sorted_strict(out@)) by {
                    assert forall|a: int, b: int| 0 <= a < b < out@.len() implies
                        (#[trigger] out@[a]).key < (#[trigger] out@[b]).key by {
                        if b < outpre.len() {
                            assert(out@[a] == outpre[a] && out@[b] == outpre[b]);
                        } else {
                            assert(out@[b] == e);
                            assert(out@[a] == outpre[a]);
                            assert(outpre[a].key < rest[ji].key);
                        }
                    }
                }
                assert forall|x: Entry<T>| #[trigger] out@.contains(x) implies
                    pre.contains(x) by {
                    let i = choose|i: int| 0 <= i < out@.len() && out@[i] == x;
                    if i < outpre.len() {
                        assert(outpre[i] == x);
                        assert(outpre.contains(x));
                    } else {
                        assert(x == e);
                        assert(rest.contains(e)) by {
                            assert(rest[ji] == e);
                        }
                    }
                }
                assert forall|x: Entry<T>| #[trigger] pre.contains(x) implies
                    out@.contains(x) || self.entries@.contains(x) by {
                    if outpre.contains(x) {
                        let i = choose|i: int| 0 <= i < outpre.len() && outpre[i] == x;
                        assert(out@[i] == x);
                    } else if rest.contains(x) {
                        if x == rest[ji] {
                            assert(out@[outpre.len() as int] == x);
                        }
                    }
                }
                assert forall|a: int, b: int|
                    0 <= a < out@.len() && 0 <= b < self.entries@.len() implies
                    (#[trigger] out@[a]).key < (#[trigger] self.entries@[b]).key by {
                    if a < outpre.len() {
                        assert(out@[a] == outpre[a]);
                    } else {
                        assert(out@[a] == e);
                    }
                }
            }
        }
        self.entries = out;
        proof {
            if sorted_strict(pre) {
                lemma_sorted_unique(self.entries@, pre);
            }
            // re-ordering keeps the same entries, so the buffer still
            // retains exactly the newest accepted keys
            assert(self.retains_newest()) by {
                assert forall|a: Entry<T>, e: Entry<T>|
                    #[trigger] self.accepted@.contains(a) && !self.entries@.contains(a)
                    && #[trigger] self.entries@.contains(e) implies a.key < e.key by {
                    assert(!pre.contains(a));
                    assert(pre.contains(e));
                }
                assert forall|e: Entry<T>| #[trigger] self.entries@.contains(e) implies
                    self.accepted@.contains(e) by {
                    assert(pre.contains(e));
                }
                if self.entries@.len() < self.capacity {
                    assert forall|a: Entry<T>| #[trigger] self.accepted@.contains(a) implies
                        self.entries@.contains(a) by {
                        assert(old(self).spec_accepted().contains(a));
                        assert(old(self)@.len() < old(self).spec_capacity());
                        assert(pre.contains(a));
                    }
                }
            }
        }
    }

    /// The capacity bound as a law: however many inserts the buffer has
    /// taken, anything it ever accepted and no longer retains is strictly
    /// older than everything it does retain — the retained entries are
    /// always the newest accepted keys.
    pub proof fn lemma_dropped_entries_are_older(self, a: Entry<T>, e: Entry<T>)
        requires
            self.wf(),
            self.spec_accepted().contains(a),
            !self@.contains(a),
            self@.contains(e),
        ensures
            a.key < e.key,
    {
    }

    /// The other half of the capacity bound: eviction begins only at
    /// capacity, so below it every accepted entry is still retained.
    pub proof fn lemma_nothing_dropped_before_full(self, a: Entry<T>)
        requires
            self.wf(),
            self.spec_accepted().contains(a),
            self@.len() < self.spec_capacity(),
        ensures
            self@.contains(a),
    {
    }

    /// The entry at position `i`, if in range.
    pub fn get(&self, i: usize) -> (r: Option<Entry<T>>)
        ensures
            match r {
                Some(e) => i < self@.len() && e == self@[i as int],
                None => i >= self@.len(),
            },
    {
        if i < self.entries.len() {
            Some(self.entries[i])
        } else {
            None
        }
    }

    /// The entry with the greatest key, or `None` on an empty buffer.
    pub fn latest(&self) -> (r: Option<Entry<T>>)
        ensures
            match r {
                None => self@.len() == 0,
                Some(e) => self@.contains(e)
                    && forall|i: int| 0 <= i < self@.len() ==> (#[trigger] self@[i]).key <= e.key,
            },
    {
        if self.entries.len() == 0 {
            return None;
        }
        let mut best: usize = 0;
        let mut i: usize = 1;
        while i < self.entries.len()
            invariant
                best < i <= self@.len(),
                forall|k: int| 0 <= k < i ==> (#[trigger] self@[k]).key <= self@[best as int].key,
            decreases self@.len() - i,
        {
            if self.entries[i].key > self.entries[best].key {
                best = i;
            }
            i = i + 1;
        }
        let e = self.entries[best];
        proof {
            assert(self@[best as int] == e);
        }
        Some(e)
    }

    /// The entry with the greatest key at or before `key`, or `None` if every
    /// retained entry is newer (the buffer-starvation condition) or the
    /// buffer is empty.
    pub fn find_at_or_before(&self, key: u64) -> (r: Option<Entry<T>>)
        ensures
            match r {
                None => forall|i: int| 0 <= i < self@.len() ==> (#[trigger] self@[i]).key > key,
                Some(e) => self@.contains(e) && e.key <= key
                    && forall|i: int| 0 <= i < self@.len() && (#[trigger] self@[i]).key <= key ==>
                        self@[i].key <= e.key,
            },
    {
        let mut found: Option<usize> = None;
        let mut i: usize = 0;
        while i < self.entries.len()
            invariant
                i <= self@.len(),
                match found {
                    None => forall|k: int| 0 <= k < i ==> (#[trigger] self@[k]).key > key,
                    Some(b) => b < i && self@[b as int].key <= key
                        && forall|k: int| 0 <= k < i && (#[trigger] self@[k]).key <= key ==>
                            self@[k].key <= self@[b as int].key,
                },
            decreases self@.len() - i,
        {
            if self.entries[i].key <= key {
                match found {
                    None => {
                        found = Some(i);
                    },
                    Some(b) => {
                        if self.entries[i].key > self.entries[b].key {
                            found = Some(i);
                        }
                    },
                }
            }
            i = i + 1;
        }
        match found {
            None => None,
            Some(b) => {
                let e = self.entries[b];
                proof {
                    assert(self@[b as int] == e);
                }
                Some(e)
            },
        }
    }

    /// The entries with key strictly greater than `since`, in ascending key
    /// order. The buffer must be sorted first (inserts may have arrived out
    /// of order).
    pub fn frontier(&self, since: u64) -> (r: Vec<Entry<T>>)
        requires
            sorted_strict(self@),
        ensures
            r@ == entries_after(self@, since),
            sorted_strict(r@),
            forall|i: int| 0 <= i < r@.len() ==> (#[trigger] r@[i]).key > since,
            forall|i: int| 0 <= i < r@.len() ==> self@.contains(#[trigger] r@[i]),
    {
        let mut out: Vec<Entry<T>> = Vec::new();
        let mut i: usize = 0;
        while i < self.entries.len()
            invariant
                i <= self@.len(),
                sorted_strict(self@),
                out@ == entries_after(self@.subrange(0, i as int), since),
                forall|a: int| #![trigger out@[a]] 0 <= a < out@.len() ==>
                    exists|k: int| 0 <= k < i && out@[a] == #[trigger] self@[k],
                sorted_strict(out@),
            decreases self@.len() - i,
        {
            let ghost prefix = self@.subrange(0, i as int);
            let ghost next = self@.subrange(0, i + 1 as int);
            let ghost outpre = out@;
            proof {
                assert(next.drop_last() =~= prefix);
                assert(next.last() == self@[i as int]);
            }
            let e = self.entries[i];
            if e.key > since {
                out.push(e);
                proof {
                    assert forall|a: int| #![trigger out@[a]] 0 <= a < out@.len() implies
                        exists|k: int| 0 <= k < i + 1 && out@[a] == #[trigger] self@[k] by {
                        if a < outpre.len() {
                            assert(out@[a] == outpre[a]);
                            let k = choose|k: int| 0 <= k < i && outpre[a] == #[trigger] self@[k];
                            assert(out@[a] == self@[k]);
                        } else {
                            assert(out@[a] == self@[i as int]);
                        }
                    }
                    assert forall|a: int, b: int| 0 <= a < b < out@.len() implies
                        (#[trigger] out@[a]).key < (#[trigger] out@[b]).key by {
                        if b < outpre.len() {
                            assert(out@[a] == outpre[a] && out@[b] == outpre[b]);
                        } else {
                            assert(out@[b] == self@[i as int]);
                            assert(out@[a] == outpre[a]);
                            let k = choose|k: int| 0 <= k < i && outpre[a] == #[trigger] self@[k];
                            assert(outpre[a] == self@[k]);
                            assert(self@[k].key < self@[i as int].key);
                        }
                    }
                }
            }
            proof {
                reveal_with_fuel(Seq::filter, 2);
                assert(out@ == entries_after(next, since));
            }
            i = i + 1;
        }
        proof {
            assert(self@.subrange(0, self@.len() as int) =~= self@);
            self@.filter_lemma(|e: Entry<T>| e.key > since);
            assert forall|a: int| 0 <= a < out@.len() implies self@.contains(#[trigger] out@[a]) by {
                let k = choose|k: int| 0 <= k < i && out@[a] == #[trigger] self@[k];
                assert(self@[k] == out@[a]);
            }
        }
        out
    }
}

} // verus!
