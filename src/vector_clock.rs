use vstd::prelude::*;

verus! {

/// The counter that a list of `(device, counter)` entries gives device `d`:
/// the value of the last entry for `d`, or zero when there is none.
pub open spec fn lookup(entries: Seq<(String, u64)>, d: Seq<char>) -> nat
    decreases entries.len(),
{
    if entries.len() == 0 {
        0
    } else if entries.last().0@ == d {
        entries.last().1 as nat
    } else {
        lookup(entries.drop_last(), d)
    }
}

/// No device has two entries.
pub open spec fn keys_distinct(entries: Seq<(String, u64)>) -> bool {
    forall|i: int, j: int|
        0 <= i < j < entries.len() ==> #[trigger] entries[i].0@ != #[trigger] entries[j].0@
}

/// Some entry is for device `d`.
pub open spec fn has_key(entries: Seq<(String, u64)>, d: Seq<char>) -> bool {
    exists|i: int| 0 <= i < entries.len() && #[trigger] entries[i].0@ == d
}

proof fn lemma_lookup_at(entries: Seq<(String, u64)>, i: int)
    requires
        keys_distinct(entries),
        0 <= i < entries.len(),
    ensures
        lookup(entries, entries[i].0@) == entries[i].1 as nat,
    decreases entries.len(),
{
    if i != entries.len() - 1 {
        let rest = entries.drop_last();
        assert(rest[i] == entries[i]);
        assert(entries.last().0@ != entries[i].0@);
        assert forall|a: int, b: int| 0 <= a < b < rest.len() implies #[trigger] rest[a].0@
            != #[trigger] rest[b].0@ by {
            assert(rest[a] == entries[a] && rest[b] == entries[b]);
        }
        lemma_lookup_at(rest, i);
    }
}

proof fn lemma_lookup_absent(entries: Seq<(String, u64)>, d: Seq<char>)
    requires
        !has_key(entries, d),
    ensures
        lookup(entries, d) == 0,
    decreases entries.len(),
{
    if entries.len() > 0 {
        let rest = entries.drop_last();
        assert(entries[entries.len() - 1].0@ != d);
        assert forall|i: int| 0 <= i < rest.len() implies #[trigger] rest[i].0@ != d by {
            assert(rest[i] == entries[i]);
        }
        lemma_lookup_absent(rest, d);
    }
}

/// What a distinct-keyed list gives each device: its entry's value, or zero.
proof fn lemma_lookup_cases(entries: Seq<(String, u64)>, d: Seq<char>)
    requires
        keys_distinct(entries),
    ensures
        has_key(entries, d) ==> exists|i: int|
            0 <= i < entries.len() && entries[i].0@ == d && lookup(entries, d)
                == #[trigger] entries[i].1 as nat,
        !has_key(entries, d) ==> lookup(entries, d) == 0,
{
    if has_key(entries, d) {
        let i = choose|i: int| 0 <= i < entries.len() && #[trigger] entries[i].0@ == d;
        lemma_lookup_at(entries, i);
    } else {
        lemma_lookup_absent(entries, d);
    }
}

proof fn lemma_distinct_drop_last(entries: Seq<(String, u64)>)
    requires
        keys_distinct(entries),
        entries.len() > 0,
    ensures
        keys_distinct(entries.drop_last()),
{
    let rest = entries.drop_last();
    assert forall|a: int, b: int| 0 <= a < b < rest.len() implies #[trigger] rest[a].0@
        != #[trigger] rest[b].0@ by {
        assert(rest[a] == entries[a] && rest[b] == entries[b]);
    }
}

/// Appending an entry for a new device sets that device alone.
proof fn lemma_lookup_push(entries: Seq<(String, u64)>, e: (String, u64), d: Seq<char>)
    ensures
        lookup(entries.push(e), d) == if e.0@ == d {
            e.1 as nat
        } else {
            lookup(entries, d)
        },
        has_key(entries.push(e), d) == (has_key(entries, d) || e.0@ == d),
        !has_key(entries, e.0@) && keys_distinct(entries) ==> keys_distinct(entries.push(e)),
{
    let s = entries.push(e);
    assert(s.drop_last() =~= entries);
    if has_key(entries, d) {
        let k = choose|k: int| 0 <= k < entries.len() && #[trigger] entries[k].0@ == d;
        assert(s[k] == entries[k]);
    }
    if has_key(s, d) {
        let k = choose|k: int| 0 <= k < s.len() && #[trigger] s[k].0@ == d;
        if k < entries.len() {
            assert(s[k] == entries[k]);
        }
    }
    if !has_key(entries, e.0@) && keys_distinct(entries) {
        assert forall|a: int, b: int| 0 <= a < b < s.len() implies #[trigger] s[a].0@
            != #[trigger] s[b].0@ by {
            assert(s[a] == entries[a]);
            if b < entries.len() {
                assert(s[b] == entries[b]);
            }
        }
    }
}

/// Changing the counter of the entry at `i` changes that device alone.
proof fn lemma_lookup_update(entries: Seq<(String, u64)>, i: int, v: u64, d: Seq<char>)
    requires
        keys_distinct(entries),
        0 <= i < entries.len(),
    ensures
        lookup(entries.update(i, (entries[i].0, v)), d) == if d == entries[i].0@ {
            v as nat
        } else {
            lookup(entries, d)
        },
        has_key(entries.update(i, (entries[i].0, v)), d) == has_key(entries, d),
        keys_distinct(entries.update(i, (entries[i].0, v))),
    decreases entries.len(),
{
    let s = entries.update(i, (entries[i].0, v));
    assert forall|k: int| 0 <= k < s.len() implies #[trigger] s[k].0@ == entries[k].0@ by {}
    if has_key(entries, d) {
        let k = choose|k: int| 0 <= k < entries.len() && #[trigger] entries[k].0@ == d;
        assert(s[k].0@ == d);
    }
    if has_key(s, d) {
        let k = choose|k: int| 0 <= k < s.len() && #[trigger] s[k].0@ == d;
        assert(entries[k].0@ == d);
    }
    if i == entries.len() - 1 {
        assert(s.drop_last() =~= entries.drop_last());
    } else {
        lemma_distinct_drop_last(entries);
        assert(s.drop_last() =~= entries.drop_last().update(i, (entries[i].0, v)));
        assert(entries.last().0@ != entries[i].0@);
        lemma_lookup_update(entries.drop_last(), i, v, d);
    }
}

/// The counters of a prefix one entry longer.
proof fn lemma_lookup_take(entries: Seq<(String, u64)>, j: int, d: Seq<char>)
    requires
        0 <= j < entries.len(),
    ensures
        lookup(entries.take(j + 1), d) == if entries[j].0@ == d {
            entries[j].1 as nat
        } else {
            lookup(entries.take(j), d)
        },
        has_key(entries.take(j + 1), d) == (has_key(entries.take(j), d) || entries[j].0@ == d),
{
    assert(entries.take(j + 1) =~= entries.take(j).push(entries[j]));
    lemma_lookup_push(entries.take(j), entries[j], d);
}

proof fn lemma_push_all(entries: Seq<(String, u64)>, e: (String, u64))
    ensures
        forall|d: Seq<char>|
            #[trigger] lookup(entries.push(e), d) == if e.0@ == d {
                e.1 as nat
            } else {
                lookup(entries, d)
            },
        forall|d: Seq<char>|
            #[trigger] has_key(entries.push(e), d) == (has_key(entries, d) || e.0@ == d),
{
    assert forall|d: Seq<char>|
        #[trigger] lookup(entries.push(e), d) == (if e.0@ == d {
            e.1 as nat
        } else {
            lookup(entries, d)
        }) by {
        lemma_lookup_push(entries, e, d);
    }
    assert forall|d: Seq<char>|
        #[trigger] has_key(entries.push(e), d) == (has_key(entries, d) || e.0@ == d) by {
        lemma_lookup_push(entries, e, d);
    }
}

proof fn lemma_update_all(entries: Seq<(String, u64)>, i: int, v: u64)
    requires
        keys_distinct(entries),
        0 <= i < entries.len(),
    ensures
        forall|d: Seq<char>|
            #[trigger] lookup(entries.update(i, (entries[i].0, v)), d) == if d == entries[i].0@ {
                v as nat
            } else {
                lookup(entries, d)
            },
        forall|d: Seq<char>|
            #[trigger] has_key(entries.update(i, (entries[i].0, v)), d) == has_key(entries, d),
        keys_distinct(entries.update(i, (entries[i].0, v))),
{
    assert forall|d: Seq<char>|
        #[trigger] lookup(entries.update(i, (entries[i].0, v)), d) == if d == entries[i].0@ {
            v as nat
        } else {
            lookup(entries, d)
        } by {
        lemma_lookup_update(entries, i, v, d);
    }
    assert forall|d: Seq<char>|
        #[trigger] has_key(entries.update(i, (entries[i].0, v)), d) == has_key(entries, d) by {
        lemma_lookup_update(entries, i, v, d);
    }
    lemma_lookup_update(entries, i, v, entries[i].0@);
}

proof fn lemma_take_all(entries: Seq<(String, u64)>, j: int)
    requires
        0 <= j < entries.len(),
    ensures
        forall|d: Seq<char>|
            #[trigger] lookup(entries.take(j + 1), d) == if entries[j].0@ == d {
                entries[j].1 as nat
            } else {
                lookup(entries.take(j), d)
            },
        forall|d: Seq<char>|
            #[trigger] has_key(entries.take(j + 1), d) == (has_key(entries.take(j), d)
                || entries[j].0@ == d),
{
    assert forall|d: Seq<char>|
        #[trigger] lookup(entries.take(j + 1), d) == if entries[j].0@ == d {
            entries[j].1 as nat
        } else {
            lookup(entries.take(j), d)
        } by {
        lemma_lookup_take(entries, j, d);
    }
    assert forall|d: Seq<char>|
        #[trigger] has_key(entries.take(j + 1), d) == (has_key(entries.take(j), d) || entries[j].0@
            == d) by {
        lemma_lookup_take(entries, j, d);
    }
}

/// The counter that the entries give `key`.
fn count_of(entries: &Vec<(String, u64)>, key: &String) -> (r: u64)
    requires
        keys_distinct(entries@),
    ensures
        r as nat == lookup(entries@, key@),
{
    match position(entries, key) {
        Some(i) => {
            proof {
                lemma_lookup_at(entries@, i as int);
            }
            entries[i].1
        },
        None => {
            proof {
                lemma_lookup_absent(entries@, key@);
            }
            0
        },
    }
}

/// The index of the entry for `key`, if there is one.
fn position(entries: &Vec<(String, u64)>, key: &String) -> (r: Option<usize>)
    ensures
        match r {
            Some(i) => i < entries@.len() && entries@[i as int].0@ == key@,
            None => !has_key(entries@, key@),
        },
{
    let mut i: usize = 0;
    while i < entries.len()
        invariant
            i <= entries@.len(),
            forall|k: int| 0 <= k < i ==> #[trigger] entries@[k].0@ != key@,
        decreases entries@.len() - i,
    {
        if entries[i].0 == *key {
            return Some(i);
        }
        i = i + 1;
    }
    None
}

/// A vector clock: for each device, how many events of it are known.
/// A device without an entry counts zero.
#[derive(Debug)]
pub struct VectorClock {
    clocks: Vec<(String, u64)>,
}

impl VectorClock {
    #[verifier::type_invariant]
    closed spec fn inv(self) -> bool {
        keys_distinct(self.clocks@)
    }

    /// The counter of device `d`.
    pub closed spec fn counter(self, d: Seq<char>) -> nat {
        lookup(self.clocks@, d)
    }

    /// Whether the clock holds an entry for device `d`.
    pub closed spec fn has_device(self, d: Seq<char>) -> bool {
        has_key(self.clocks@, d)
    }

    /// `self` happens before `other`: no counter is greater, and one is smaller.
    pub open spec fn precedes(self, other: VectorClock) -> bool {
        &&& forall|d: Seq<char>| #[trigger] self.counter(d) <= other.counter(d)
        &&& exists|d: Seq<char>| #[trigger] self.counter(d) < other.counter(d)
    }

    /// Neither clock happens before the other.
    pub open spec fn concurrent_with(self, other: VectorClock) -> bool {
        !self.precedes(other) && !other.precedes(self)
    }

    /// Every counter of `self` is at least the matching counter of `other`.
    pub open spec fn dominates(self, other: VectorClock) -> bool {
        forall|d: Seq<char>| #[trigger] self.counter(d) >= other.counter(d)
    }

    /// Each counter of `self` is the larger of the two counters of `a` and `b`.
    pub open spec fn is_merge_of(self, a: VectorClock, b: VectorClock) -> bool {
        forall|d: Seq<char>|
            #[trigger] self.counter(d) == if a.counter(d) >= b.counter(d) {
                a.counter(d)
            } else {
                b.counter(d)
            }
    }

    /// The two clocks give every device the same counter.
    pub open spec fn same_counters(self, other: VectorClock) -> bool {
        forall|d: Seq<char>| #[trigger] self.counter(d) == other.counter(d)
    }

    pub fn new() -> (r: VectorClock)
        ensures
            forall|d: Seq<char>| #[trigger] r.counter(d) == 0 && !r.has_device(d),
    {
        VectorClock { clocks: Vec::new() }
    }

    pub fn increment(&mut self, device_id: &str)
        requires
            old(self).counter(device_id@) < u64::MAX,
        ensures
            forall|d: Seq<char>|
                #[trigger] final(self).counter(d) == if d == device_id@ {
                    old(self).counter(d) + 1
                } else {
                    old(self).counter(d)
                },
            forall|d: Seq<char>|
                #[trigger] final(self).has_device(d) == (old(self).has_device(d) || d
                    == device_id@),
    {
        proof {
            use_type_invariant(&*self);
        }
        let key = device_id.to_string();
        let c = count_of(&self.clocks, &key);
        self.observe(key, c + 1);
    }

    /// Raises the counter of `device` to `count` where it is lower.
    pub fn observe(&mut self, device: String, count: u64)
        ensures
            forall|d: Seq<char>|
                #[trigger] final(self).counter(d) == if d == device@ {
                    if old(self).counter(d) >= count as nat {
                        old(self).counter(d)
                    } else {
                        count as nat
                    }
                } else {
                    old(self).counter(d)
                },
            forall|d: Seq<char>|
                #[trigger] final(self).has_device(d) == (old(self).has_device(d) || d == device@),
    {
        proof {
            use_type_invariant(&*self);
        }
        let mut entries: Vec<(String, u64)> = Vec::new();
        std::mem::swap(&mut entries, &mut self.clocks);
        let ghost before = entries@;
        match position(&entries, &device) {
            Some(i) => {
                proof {
                    lemma_lookup_at(before, i as int);
                }
                let cur = entries[i].1;
                let top = if cur >= count { cur } else { count };
                let name = entries[i].0.clone();
                entries.set(i, (name, top));
                proof {
                    assert(entries@ == before.update(i as int, (before[i as int].0, top)));
                    lemma_update_all(before, i as int, top);
                }
            },
            None => {
                let ghost e = (device, count);
                entries.push((device, count));
                proof {
                    assert(entries@ == before.push(e));
                    lemma_push_all(before, e);
                    lemma_lookup_push(before, e, e.0@);
                    lemma_lookup_absent(before, e.0@);
                }
            },
        }
        self.clocks = entries;
    }

    /// Takes, device by device, the larger of the two counters.
    pub fn merge(&mut self, other: &VectorClock)
        ensures
            final(self).is_merge_of(*old(self), *other),
            forall|d: Seq<char>|
                #[trigger] final(self).has_device(d) == (old(self).has_device(d)
                    || other.has_device(d)),
    {
        proof {
            use_type_invariant(other);
        }
        let ghost start = *self;
        let ghost theirs = other.clocks@;
        let mut j: usize = 0;
        while j < other.clocks.len()
            invariant
                j <= theirs.len(),
                theirs == other.clocks@,
                keys_distinct(theirs),
                forall|d: Seq<char>|
                    #[trigger] self.counter(d) == if start.counter(d) >= lookup(theirs.take(j as int), d) {
                        start.counter(d)
                    } else {
                        lookup(theirs.take(j as int), d)
                    },
                forall|d: Seq<char>|
                    #[trigger] self.has_device(d) == (start.has_device(d) || has_key(theirs.take(j as int), d)),
            decreases theirs.len() - j,
        {
            let name = other.clocks[j].0.clone();
            let count = other.clocks[j].1;
            proof {
                assert(!has_key(theirs.take(j as int), theirs[j as int].0@)) by {
                    if has_key(theirs.take(j as int), theirs[j as int].0@) {
                        let k = choose|k: int| 0 <= k < j && #[trigger] theirs.take(j as int)[k].0@ == theirs[j as int].0@;
                        assert(theirs.take(j as int)[k] == theirs[k]);
                    }
                }
                lemma_lookup_absent(theirs.take(j as int), theirs[j as int].0@);
                lemma_take_all(theirs, j as int);
            }
            self.observe(name, count);
            j = j + 1;
        }
        proof {
            assert(theirs.take(theirs.len() as int) =~= theirs);
        }
    }

    /// Whether `self` happens before `other`.
    pub fn happens_before(&self, other: &VectorClock) -> (r: bool)
        ensures
            r == self.precedes(*other),
    {
        proof {
            use_type_invariant(self);
            use_type_invariant(other);
        }
        let ghost mine = self.clocks@;
        let ghost theirs = other.clocks@;
        let mut at_least_one_less = false;
        let mut i: usize = 0;
        while i < self.clocks.len()
            invariant
                i <= mine.len(),
                mine == self.clocks@,
                theirs == other.clocks@,
                keys_distinct(mine),
                keys_distinct(theirs),
                forall|k: int| 0 <= k < i ==> (#[trigger] mine[k].1 as nat) <= lookup(theirs, mine[k].0@),
                at_least_one_less == exists|k: int| 0 <= k < i && (#[trigger] mine[k].1 as nat)
                    < lookup(theirs, mine[k].0@),
            decreases mine.len() - i,
        {
            let count = self.clocks[i].1;
            let other_count = count_of(&other.clocks, &self.clocks[i].0);
            if count > other_count {
                proof {
                    lemma_lookup_at(mine, i as int);
                    let d = mine[i as int].0@;
                    assert(!(self.counter(d) <= other.counter(d)));
                }
                return false;
            }
            if count < other_count {
                at_least_one_less = true;
            }
            i = i + 1;
        }
        let ghost first = at_least_one_less;
        let mut j: usize = 0;
        while j < other.clocks.len()
            invariant
                j <= theirs.len(),
                mine == self.clocks@,
                theirs == other.clocks@,
                keys_distinct(mine),
                keys_distinct(theirs),
                at_least_one_less == (first || exists|k: int|
                    0 <= k < j && !has_key(mine, #[trigger] theirs[k].0@) && theirs[k].1 > 0),
            decreases theirs.len() - j,
        {
            let present = position(&self.clocks, &other.clocks[j].0);
            if present.is_none() && other.clocks[j].1 > 0 {
                at_least_one_less = true;
            }
            j = j + 1;
        }
        proof {
            assert forall|d: Seq<char>| #[trigger] self.counter(d) <= other.counter(d) by {
                lemma_lookup_cases(mine, d);
            }
            if at_least_one_less {
                if first {
                    let k = choose|k: int| 0 <= k < mine.len() && (#[trigger] mine[k].1 as nat)
                        < lookup(theirs, mine[k].0@);
                    lemma_lookup_at(mine, k);
                    assert(self.counter(mine[k].0@) < other.counter(mine[k].0@));
                } else {
                    let k = choose|k: int|
                        0 <= k < theirs.len() && !has_key(mine, #[trigger] theirs[k].0@) && theirs[k].1 > 0;
                    lemma_lookup_at(theirs, k);
                    lemma_lookup_absent(mine, theirs[k].0@);
                    assert(self.counter(theirs[k].0@) < other.counter(theirs[k].0@));
                }
            } else {
                assert forall|d: Seq<char>| !(#[trigger] self.counter(d) < other.counter(d)) by {
                    lemma_lookup_cases(mine, d);
                    lemma_lookup_cases(theirs, d);
                    if has_key(mine, d) {
                        let k = choose|k: int| 0 <= k < mine.len() && #[trigger] mine[k].0@ == d;
                        lemma_lookup_at(mine, k);
                    } else if has_key(theirs, d) {
                        let k = choose|k: int| 0 <= k < theirs.len() && #[trigger] theirs[k].0@ == d;
                        lemma_lookup_at(theirs, k);
                    }
                }
            }
        }
        at_least_one_less
    }

    /// Whether no counter of `self` exceeds the matching counter of `other`.
    pub fn le_all(&self, other: &VectorClock) -> (r: bool)
        ensures
            r == forall|d: Seq<char>| #[trigger] self.counter(d) <= other.counter(d),
    {
        proof {
            use_type_invariant(self);
            use_type_invariant(other);
        }
        let ghost mine = self.clocks@;
        let mut i: usize = 0;
        while i < self.clocks.len()
            invariant
                i <= mine.len(),
                mine == self.clocks@,
                keys_distinct(mine),
                keys_distinct(other.clocks@),
                forall|k: int| 0 <= k < i ==> (#[trigger] mine[k].1 as nat) <= lookup(other.clocks@, mine[k].0@),
            decreases mine.len() - i,
        {
            if self.clocks[i].1 > count_of(&other.clocks, &self.clocks[i].0) {
                proof {
                    lemma_lookup_at(mine, i as int);
                    let d = mine[i as int].0@;
                    assert(!(self.counter(d) <= other.counter(d)));
                }
                return false;
            }
            i = i + 1;
        }
        proof {
            assert forall|d: Seq<char>| #[trigger] self.counter(d) <= other.counter(d) by {
                lemma_lookup_cases(mine, d);
            }
        }
        true
    }

    /// Whether the two clocks give every device the same counter.
    pub fn same_as(&self, other: &VectorClock) -> (r: bool)
        ensures
            r == self.same_counters(*other),
    {
        let a = self.le_all(other);
        let b = other.le_all(self);
        proof {
            if a && b {
                assert forall|d: Seq<char>| #[trigger] self.counter(d) == other.counter(d) by {
                    assert(self.counter(d) <= other.counter(d));
                    assert(other.counter(d) <= self.counter(d));
                }
            }
            if self.same_counters(*other) {
                assert forall|d: Seq<char>| #[trigger] self.counter(d) <= other.counter(d) by {
                    assert(self.counter(d) == other.counter(d));
                }
                assert forall|d: Seq<char>| #[trigger] other.counter(d) <= self.counter(d) by {
                    assert(self.counter(d) == other.counter(d));
                }
            }
        }
        a && b
    }

    /// Neither clock happens before the other.
    pub fn is_concurrent(&self, other: &VectorClock) -> (r: bool)
        ensures
            r == self.concurrent_with(*other),
    {
        !self.happens_before(other) && !other.happens_before(self)
    }

    /// The counter recorded for `device_id`, if the clock holds an entry for it.
    pub fn get(&self, device_id: &str) -> (r: Option<u64>)
        ensures
            r.is_some() == self.has_device(device_id@),
            r.is_some() ==> r.unwrap() as nat == self.counter(device_id@),
    {
        proof {
            use_type_invariant(self);
        }
        let key = device_id.to_string();
        match position(&self.clocks, &key) {
            Some(i) => {
                proof {
                    lemma_lookup_at(self.clocks@, i as int);
                }
                Some(self.clocks[i].1)
            },
            None => None,
        }
    }

    /// The entries, one per device, as `(device, counter)` pairs.
    pub fn entries(&self) -> (r: Vec<(String, u64)>)
        ensures
            keys_distinct(r@),
            forall|d: Seq<char>| #[trigger] lookup(r@, d) == self.counter(d),
            forall|d: Seq<char>| #[trigger] has_key(r@, d) == self.has_device(d),
    {
        let copy = self.duplicate();
        proof {
            use_type_invariant(&copy);
            assert forall|d: Seq<char>| #[trigger] lookup(copy.clocks@, d) == self.counter(d) by {
                assert(copy.counter(d) == self.counter(d));
            }
            assert forall|d: Seq<char>| #[trigger] has_key(copy.clocks@, d) == self.has_device(d) by {
                assert(copy.counter(d) == self.counter(d));
            }
        }
        copy.clocks
    }

    /// An entry-for-entry copy.
    pub fn duplicate(&self) -> (r: VectorClock)
        ensures
            forall|d: Seq<char>|
                #[trigger] r.counter(d) == self.counter(d) && r.has_device(d) == self.has_device(d),
    {
        proof {
            use_type_invariant(self);
        }
        let mut out: Vec<(String, u64)> = Vec::new();
        let mut i: usize = 0;
        while i < self.clocks.len()
            invariant
                i <= self.clocks@.len(),
                out@.len() == i,
                forall|k: int| 0 <= k < i ==> #[trigger] out@[k] == self.clocks@[k],
            decreases self.clocks@.len() - i,
        {
            out.push((self.clocks[i].0.clone(), self.clocks[i].1));
            i = i + 1;
        }
        assert(out@ =~= self.clocks@);
        VectorClock { clocks: out }
    }
}

impl Clone for VectorClock {
    fn clone(&self) -> Self {
        self.duplicate()
    }
}

/// No clock happens before itself.
pub proof fn lemma_happens_before_irreflexive(a: VectorClock)
    ensures
        !a.precedes(a),
{
}

/// Happens-before is transitive.
pub proof fn lemma_happens_before_transitive(a: VectorClock, b: VectorClock, c: VectorClock)
    requires
        a.precedes(b),
        b.precedes(c),
    ensures
        a.precedes(c),
{
    let d = choose|d: Seq<char>| #[trigger] a.counter(d) < b.counter(d);
    assert(b.counter(d) <= c.counter(d));
    assert forall|e: Seq<char>| #[trigger] a.counter(e) <= c.counter(e) by {
        assert(a.counter(e) <= b.counter(e));
        assert(b.counter(e) <= c.counter(e));
    }
    assert(a.counter(d) < c.counter(d));
}

/// The merge of two clocks dominates each of them, counter by counter.
pub proof fn lemma_merge_dominates(a: VectorClock, b: VectorClock, m: VectorClock)
    requires
        m.is_merge_of(a, b),
    ensures
        m.dominates(a),
        m.dominates(b),
{
    assert forall|d: Seq<char>| #[trigger] m.counter(d) >= a.counter(d) by {
        assert(m.counter(d) == if a.counter(d) >= b.counter(d) { a.counter(d) } else { b.counter(d) });
    }
    assert forall|d: Seq<char>| #[trigger] m.counter(d) >= b.counter(d) by {
        assert(m.counter(d) == if a.counter(d) >= b.counter(d) { a.counter(d) } else { b.counter(d) });
    }
}

/// An increment moves a clock strictly forward: the old clock happens before the new one.
pub proof fn lemma_increment_advances(before: VectorClock, after: VectorClock, device: Seq<char>)
    requires
        forall|d: Seq<char>|
            #[trigger] after.counter(d) == if d == device {
                before.counter(d) + 1
            } else {
                before.counter(d)
            },
    ensures
        before.precedes(after),
        after.dominates(before),
{
    assert(before.counter(device) < after.counter(device));
    assert forall|d: Seq<char>| #[trigger] before.counter(d) <= after.counter(d) by {
        assert(after.counter(d) == if d == device { before.counter(d) + 1 } else { before.counter(d) });
    }
    assert forall|d: Seq<char>| #[trigger] after.counter(d) >= before.counter(d) by {
        assert(before.counter(d) <= after.counter(d));
    }
}

} // verus!
