//! The key-value store: entries by key, reads that skip expired entries, removal of
//! expired entries.
use vstd::prelude::*;
use crate::kv::entry::{add_capped, clock_millis, expired_at, Entry, EntryView};
use crate::kv::value::{Value, ValueView};
use crate::text::{is_prefix_of, starts_with};

verus! {

/// The keys of the slots, as characters.
pub open spec fn slot_keys(s: Seq<(String, Entry)>) -> Seq<Seq<char>> {
    s.map_values(|p: (String, Entry)| p.0@)
}

/// The slot that holds key `k`.
pub open spec fn slot_of(s: Seq<(String, Entry)>, k: Seq<char>) -> int {
    choose|i: int| 0 <= i < s.len() && s[i].0@ == k
}

/// The entries by key that the slots hold.
pub open spec fn slots_map(s: Seq<(String, Entry)>) -> Map<Seq<char>, EntryView> {
    Map::new(
        |k: Seq<char>| exists|i: int| 0 <= i < s.len() && s[i].0@ == k,
        |k: Seq<char>| s[slot_of(s, k)].1@,
    )
}

/// The entry a put stores: created at `now`, expiring `ttl_millis` later when given.
pub open spec fn stored_entry(value: ValueView, ttl_millis: Option<u64>, now: u64) -> EntryView {
    EntryView {
        value,
        created_at: now,
        expires_at: match ttl_millis {
            Some(d) => Some(add_capped(now, d)),
            None => None,
        },
    }
}

/// What a read of `k` at `now` returns: the value of its entry, unless there is none or it
/// has expired.
pub open spec fn read_at(m: Map<Seq<char>, EntryView>, k: Seq<char>, now: u64) -> Option<ValueView> {
    if m.contains_key(k) && !expired_at(m[k], now) {
        Some(m[k].value)
    } else {
        None
    }
}

/// The entries that have not expired at `now`.
pub open spec fn live_at(m: Map<Seq<char>, EntryView>, now: u64) -> Map<Seq<char>, EntryView> {
    m.restrict(m.dom().filter(|k: Seq<char>| !expired_at(m[k], now)))
}

/// The keys a scan for `prefix` at `now` lists: those that start with it and whose entries
/// have not expired.
pub open spec fn scan_keys(m: Map<Seq<char>, EntryView>, prefix: Seq<char>, now: u64) -> Set<Seq<char>> {
    live_at(m, now).dom().filter(|k: Seq<char>| is_prefix_of(prefix, k))
}

/// Key and value of each item, by content.
pub open spec fn item_views(s: Seq<(String, Value)>) -> Seq<(Seq<char>, ValueView)> {
    s.map_values(|p: (String, Value)| (p.0@, p.1@))
}

/// The keys of the items.
pub open spec fn item_keys(s: Seq<(Seq<char>, ValueView)>) -> Seq<Seq<char>> {
    s.map_values(|p: (Seq<char>, ValueView)| p.0)
}

/// `items` holds each key of a scan of `m` once, with the value stored under it.
pub open spec fn lists_scan(
    items: Seq<(Seq<char>, ValueView)>,
    m: Map<Seq<char>, EntryView>,
    prefix: Seq<char>,
    now: u64,
) -> bool {
    &&& item_keys(items).no_duplicates()
    &&& item_keys(items).to_set() == scan_keys(m, prefix, now)
    &&& forall|i: int| 0 <= i < items.len() ==> #[trigger] items[i].1 == m[items[i].0].value
}

proof fn lemma_slot_of(s: Seq<(String, Entry)>, i: int)
    requires
        slot_keys(s).no_duplicates(),
        0 <= i < s.len(),
    ensures
        slot_of(s, s[i].0@) == i,
{
    let j = slot_of(s, s[i].0@);
    assert(0 <= j < s.len() && s[j].0@ == s[i].0@);
    if j != i {
        assert(slot_keys(s)[i] == slot_keys(s)[j]);
    }
}

/// A store of entries by key.
pub struct KvStore {
    slots: Vec<(String, Entry)>,
}

impl View for KvStore {
    type V = Map<Seq<char>, EntryView>;

    closed spec fn view(&self) -> Map<Seq<char>, EntryView> {
        slots_map(self.slots@)
    }
}

impl KvStore {
    #[verifier::type_invariant]
    closed spec fn keys_distinct(&self) -> bool {
        slot_keys(self.slots@).no_duplicates()
    }

    /// An empty store.
    pub fn new() -> (r: Self)
        ensures
            r@ == Map::<Seq<char>, EntryView>::empty(),
    {
        let r = KvStore { slots: Vec::new() };
        assert(r@ =~= Map::<Seq<char>, EntryView>::empty());
        r
    }

    /// Stores `value` under `key`, created at `now`, replacing any entry the key had.
    pub fn put_at(&mut self, key: &str, value: Value, ttl_millis: Option<u64>, now: u64)
        ensures
            final(self)@ == old(self)@.insert(key@, stored_entry(value@, ttl_millis, now)),
    {
        proof { use_type_invariant(&*self); }
        let entry = Entry::new_at(value, ttl_millis, now);
        let ghost e = entry@;
        assert(e == stored_entry(value@, ttl_millis, now));
        let ghost before = self.slots@;
        let mut slots = Vec::new();
        std::mem::swap(&mut slots, &mut self.slots);
        match self.find_in(&slots, key) {
            Some(i) => {
                slots.set(i, (String::from_str(key), entry));
                proof {
                    assert(slot_keys(slots@) =~= slot_keys(before));
                    assert forall|k: Seq<char>| #[trigger] slots_map(slots@).contains_key(k) == slots_map(before).insert(key@, e).contains_key(k) by {
                        if k == key@ {
                            assert(slots@[i as int].0@ == k);
                        } else if slots_map(before).contains_key(k) {
                            let j = choose|j: int| 0 <= j < before.len() && before[j].0@ == k;
                            assert(slots@[j].0@ == k);
                        } else if slots_map(slots@).contains_key(k) {
                            let j = choose|j: int| 0 <= j < slots@.len() && slots@[j].0@ == k;
                            assert(before[j].0@ == k);
                        }
                    }
                    assert forall|k: Seq<char>| #[trigger] slots_map(slots@).contains_key(k) implies slots_map(slots@)[k] == slots_map(before).insert(key@, e)[k] by {
                        let j = choose|j: int| 0 <= j < slots@.len() && slots@[j].0@ == k;
                        lemma_slot_of(slots@, j);
                        lemma_slot_of(before, j);
                        if j == i {
                            assert(slots@[j].1@ == e);
                        } else {
                            assert(slots@[j] == before[j]);
                            assert(slot_keys(before)[j] != slot_keys(before)[i as int]);
                            assert(k != key@);
                        }
                    }
                    assert(slots_map(slots@) =~= slots_map(before).insert(key@, e));
                }
            },
            None => {
                slots.push((String::from_str(key), entry));
                proof {
                    assert(slot_keys(slots@) =~= slot_keys(before).push(key@));
                    assert forall|k: Seq<char>| #[trigger] slots_map(slots@).contains_key(k) == slots_map(before).insert(key@, e).contains_key(k) by {
                        if k == key@ {
                            assert(slots@[before.len() as int].0@ == k);
                        } else if slots_map(before).contains_key(k) {
                            let j = choose|j: int| 0 <= j < before.len() && before[j].0@ == k;
                            assert(slots@[j].0@ == k);
                        } else if slots_map(slots@).contains_key(k) {
                            let j = choose|j: int| 0 <= j < slots@.len() && slots@[j].0@ == k;
                            assert(before[j].0@ == k);
                        }
                    }
                    assert forall|k: Seq<char>| #[trigger] slots_map(slots@).contains_key(k) implies slots_map(slots@)[k] == slots_map(before).insert(key@, e)[k] by {
                        let j = choose|j: int| 0 <= j < slots@.len() && slots@[j].0@ == k;
                        lemma_slot_of(slots@, j);
                        if j < before.len() {
                            lemma_slot_of(before, j);
                        }
                    }
                    assert(slots_map(slots@) =~= slots_map(before).insert(key@, e));
                }
            },
        }
        self.slots = slots;
    }


    /// Stores `value` under `key`, created at the current time, replacing any entry the key
    /// had.
    pub fn put(&mut self, key: &str, value: Value, ttl_millis: Option<u64>)
        ensures
            exists|now: u64| final(self)@ == old(self)@.insert(key@, stored_entry(value@, ttl_millis, now)),
    {
        let now = clock_millis();
        self.put_at(key, value, ttl_millis, now);
    }

    /// A copy of the value stored under `key`, unless there is none or it has expired at
    /// `now`.
    pub fn get_at(&self, key: &str, now: u64) -> (r: Option<Value>)
        ensures
            match r {
                Some(v) => read_at(self@, key@, now) == Some(v@),
                None => read_at(self@, key@, now).is_none(),
            },
    {
        proof { use_type_invariant(self); }
        match self.find_in(&self.slots, key) {
            Some(i) => {
                proof { lemma_slot_of(self.slots@, i as int); }
                let entry = &self.slots[i].1;
                if entry.is_expired_at(now) {
                    None
                } else {
                    Some(entry.value.clone())
                }
            },
            None => None,
        }
    }

    /// A copy of the value stored under `key`, unless there is none or it has expired at
    /// the current time.
    pub fn get(&self, key: &str) -> (r: Option<Value>)
        ensures
            exists|now: u64|
                match r {
                    Some(v) => read_at(self@, key@, now) == Some(v@),
                    None => read_at(self@, key@, now).is_none(),
                },
    {
        let now = clock_millis();
        self.get_at(key, now)
    }

    /// Removes the entry of `key`; returns whether there was one.
    pub fn del(&mut self, key: &str) -> (b: bool)
        ensures
            b == old(self)@.contains_key(key@),
            final(self)@ == old(self)@.remove(key@),
    {
        proof { use_type_invariant(&*self); }
        let ghost before = self.slots@;
        let mut slots = Vec::new();
        std::mem::swap(&mut slots, &mut self.slots);
        match self.find_in(&slots, key) {
            Some(i) => {
                slots.remove(i);
                proof {
                    assert(slot_keys(slots@) =~= slot_keys(before).remove(i as int));
                    assert(slot_keys(slots@).no_duplicates()) by {
                        assert forall|a: int, b: int| 0 <= a < slots@.len() && 0 <= b < slots@.len() && a != b implies slot_keys(slots@)[a] != slot_keys(slots@)[b] by {
                            let a2 = if a < i { a } else { a + 1 };
                            let b2 = if b < i { b } else { b + 1 };
                            assert(slot_keys(slots@)[a] == slot_keys(before)[a2]);
                            assert(slot_keys(slots@)[b] == slot_keys(before)[b2]);
                        }
                    }
                    assert forall|k: Seq<char>| #[trigger] slots_map(slots@).contains_key(k) == slots_map(before).remove(key@).contains_key(k) by {
                        if slots_map(slots@).contains_key(k) {
                            let j = choose|j: int| 0 <= j < slots@.len() && slots@[j].0@ == k;
                            let j2 = if j < i { j } else { j + 1 };
                            assert(before[j2].0@ == k);
                            assert(slot_keys(before)[j2] != slot_keys(before)[i as int]);
                        }
                        if slots_map(before).remove(key@).contains_key(k) {
                            let j = choose|j: int| 0 <= j < before.len() && before[j].0@ == k;
                            assert(j != i);
                            let j2 = if j < i { j } else { j - 1 };
                            assert(slots@[j2].0@ == k);
                        }
                    }
                    assert forall|k: Seq<char>| #[trigger] slots_map(slots@).contains_key(k) implies slots_map(slots@)[k] == slots_map(before).remove(key@)[k] by {
                        let j = choose|j: int| 0 <= j < slots@.len() && slots@[j].0@ == k;
                        let j2 = if j < i { j } else { j + 1 };
                        lemma_slot_of(slots@, j);
                        lemma_slot_of(before, j2);
                        assert(slots@[j] == before[j2]);
                    }
                    assert(slots_map(slots@) =~= slots_map(before).remove(key@));
                }
                self.slots = slots;
                true
            },
            None => {
                proof {
                    assert(slots_map(before).remove(key@) =~= slots_map(before));
                }
                self.slots = slots;
                false
            },
        }
    }

    /// The number of keys.
    pub fn len(&self) -> (n: usize)
        ensures
            n == self@.dom().len(),
    {
        proof {
            use_type_invariant(self);
            let ks = slot_keys(self.slots@);
            ks.unique_seq_to_set();
            assert(ks.to_set() =~= self@.dom()) by {
                assert forall|k: Seq<char>| ks.to_set().contains(k) implies self@.dom().contains(k) by {
                    let j = choose|j: int| 0 <= j < ks.len() && ks[j] == k;
                    assert(self.slots@[j].0@ == k);
                }
                assert forall|k: Seq<char>| self@.dom().contains(k) implies ks.to_set().contains(k) by {
                    let j = choose|j: int| 0 <= j < self.slots@.len() && self.slots@[j].0@ == k;
                    assert(ks[j] == k);
                }
            }
        }
        self.slots.len()
    }

    /// The keys that start with `pattern`, each once, in no particular order.
    pub fn keys(&self, pattern: &str) -> (r: Vec<String>)
        ensures
            r@.map_values(|s: String| s@).no_duplicates(),
            r@.map_values(|s: String| s@).to_set() == self@.dom().filter(|k: Seq<char>| is_prefix_of(pattern@, k)),
    {
        proof { use_type_invariant(self); }
        let ghost ks = slot_keys(self.slots@);
        let mut r: Vec<String> = Vec::new();
        let mut chosen: Ghost<Seq<int>> = Ghost(Seq::empty());
        let mut i: usize = 0;
        while i < self.slots.len()
            invariant
                ks == slot_keys(self.slots@),
                ks.no_duplicates(),
                i <= self.slots.len(),
                chosen@.len() == r@.len(),
                forall|a: int| 0 <= a < r@.len() ==> 0 <= #[trigger] chosen@[a] < i && r@[a]@ == ks[chosen@[a]],
                forall|a: int, b: int| 0 <= a < b < r@.len() ==> #[trigger] chosen@[a] < #[trigger] chosen@[b],
                forall|j: int| 0 <= j < i && is_prefix_of(pattern@, ks[j]) ==> exists|a: int| 0 <= a < r@.len() && #[trigger] chosen@[a] == j,
                forall|a: int| 0 <= a < r@.len() ==> is_prefix_of(pattern@, #[trigger] r@[a]@),
            decreases self.slots.len() - i,
        {
            assert(ks[i as int] == self.slots@[i as int].0@);
            let ghost chosen_before = chosen@;
            if starts_with(self.slots[i].0.as_str(), pattern) {
                r.push(self.slots[i].0.clone());
                proof {
                    chosen@ = chosen@.push(i as int);
                }
            }
            proof {
                assert forall|j: int| 0 <= j <= i && is_prefix_of(pattern@, ks[j]) implies exists|a: int| 0 <= a < r@.len() && #[trigger] chosen@[a] == j by {
                    if j < i {
                        let a = choose|a: int| 0 <= a < chosen_before.len() && #[trigger] chosen_before[a] == j;
                        assert(chosen@[a] == chosen_before[a]);
                    } else {
                        assert(chosen@[chosen_before.len() as int] == j);
                    }
                }
            }
            i = i + 1;
        }
        proof {
            let rv = r@.map_values(|s: String| s@);
            assert forall|a: int, b: int| 0 <= a < rv.len() && 0 <= b < rv.len() && a != b implies rv[a] != rv[b] by {
                if a < b {
                    assert(chosen@[a] < chosen@[b]);
                } else {
                    assert(chosen@[b] < chosen@[a]);
                }
                assert(ks[chosen@[a]] != ks[chosen@[b]]);
            }
            let want = self@.dom().filter(|k: Seq<char>| is_prefix_of(pattern@, k));
            assert forall|k: Seq<char>| rv.to_set().contains(k) implies want.contains(k) by {
                let a = choose|a: int| 0 <= a < rv.len() && rv[a] == k;
                assert(r@[a]@ == k);
                assert(self.slots@[chosen@[a]].0@ == k);
            }
            assert forall|k: Seq<char>| want.contains(k) implies rv.to_set().contains(k) by {
                let j = choose|j: int| 0 <= j < self.slots@.len() && self.slots@[j].0@ == k;
                assert(ks[j] == k);
                let a = choose|a: int| 0 <= a < r@.len() && #[trigger] chosen@[a] == j;
                assert(rv[a] == k);
            }
            assert(rv.to_set() =~= want);
        }
        r
    }

    /// Removes every entry that has expired at `now`.
    pub fn purge_expired(&mut self, now: u64)
        ensures
            final(self)@ == live_at(old(self)@, now),
    {
        proof { use_type_invariant(&*self); }
        let ghost before = self.slots@;
        let ghost m = slots_map(before);
        let mut old_slots = Vec::new();
        std::mem::swap(&mut old_slots, &mut self.slots);
        let mut kept: Vec<(String, Entry)> = Vec::new();
        let mut origin: Ghost<Seq<int>> = Ghost(Seq::empty());
        while old_slots.len() > 0
            invariant
                slot_keys(before).no_duplicates(),
                m == slots_map(before),
                old_slots@.len() <= before.len(),
                forall|j: int| 0 <= j < old_slots@.len() ==> #[trigger] old_slots@[j] == before[j],
                origin@.len() == kept@.len(),
                forall|a: int| 0 <= a < kept@.len() ==> old_slots@.len() <= #[trigger] origin@[a] < before.len()
                    && kept@[a] == before[origin@[a]] && !expired_at(before[origin@[a]].1@, now),
                forall|a: int, b: int| 0 <= a < b < kept@.len() ==> #[trigger] origin@[a] > #[trigger] origin@[b],
                forall|j: int| old_slots@.len() <= j < before.len() && !expired_at(before[j].1@, now)
                    ==> exists|a: int| 0 <= a < kept@.len() && #[trigger] origin@[a] == j,
            decreases old_slots@.len(),
        {
            let last = old_slots.len() - 1;
            let slot = old_slots.pop().unwrap();
            assert(slot == before[last as int]);
            let ghost origin_before = origin@;
            if !slot.1.is_expired_at(now) {
                kept.push(slot);
                proof {
                    origin@ = origin@.push(last as int);
                }
            }
            proof {
                assert forall|j: int| last <= j < before.len() && !expired_at(before[j].1@, now) implies exists|a: int| 0 <= a < kept@.len() && #[trigger] origin@[a] == j by {
                    if j > last {
                        let a = choose|a: int| 0 <= a < origin_before.len() && #[trigger] origin_before[a] == j;
                        assert(origin@[a] == origin_before[a]);
                    } else {
                        assert(origin@[origin_before.len() as int] == j);
                    }
                }
            }
        }
        proof {
            let kk = slot_keys(kept@);
            assert forall|a: int, b: int| 0 <= a < kk.len() && 0 <= b < kk.len() && a != b implies kk[a] != kk[b] by {
                assert(origin@[a] != origin@[b]) by {
                    if a < b {
                        assert(origin@[a] > origin@[b]);
                    } else {
                        assert(origin@[b] > origin@[a]);
                    }
                }
                assert(slot_keys(before)[origin@[a]] != slot_keys(before)[origin@[b]]);
            }
            let want = live_at(m, now);
            assert forall|k: Seq<char>| #[trigger] slots_map(kept@).contains_key(k) == want.contains_key(k) by {
                if slots_map(kept@).contains_key(k) {
                    let a = choose|a: int| 0 <= a < kept@.len() && kept@[a].0@ == k;
                    let j = origin@[a];
                    assert(before[j].0@ == k);
                    lemma_slot_of(before, j);
                }
                if want.contains_key(k) {
                    let j = choose|j: int| 0 <= j < before.len() && before[j].0@ == k;
                    lemma_slot_of(before, j);
                    let a = choose|a: int| 0 <= a < kept@.len() && #[trigger] origin@[a] == j;
                    assert(kept@[a].0@ == k);
                }
            }
            assert forall|k: Seq<char>| #[trigger] slots_map(kept@).contains_key(k) implies slots_map(kept@)[k] == want[k] by {
                let a = choose|a: int| 0 <= a < kept@.len() && kept@[a].0@ == k;
                lemma_slot_of(kept@, a);
                let j = origin@[a];
                lemma_slot_of(before, j);
            }
            assert(slots_map(kept@) =~= want);
        }
        self.slots = kept;
    }

    /// Removes every entry that has expired at the current time, as `purge_expired` does for
    /// the clock's reading.
    pub fn purge_expired_now(&mut self)
        ensures
            exists|now: u64| final(self)@ == live_at(old(self)@, now),
    {
        let now = clock_millis();
        self.purge_expired(now);
    }

    /// Each key that starts with `prefix` and has not expired at `now`, with a copy of its
    /// value, in no particular order.
    pub(crate) fn scan_items_at(&self, prefix: &str, now: u64) -> (r: Vec<(String, Value)>)
        ensures
            lists_scan(item_views(r@), self@, prefix@, now),
    {
        proof { use_type_invariant(self); }
        let ghost ks = slot_keys(self.slots@);
        let ghost m = self@;
        let mut r: Vec<(String, Value)> = Vec::new();
        let mut chosen: Ghost<Seq<int>> = Ghost(Seq::empty());
        let mut i: usize = 0;
        while i < self.slots.len()
            invariant
                ks == slot_keys(self.slots@),
                ks.no_duplicates(),
                m == slots_map(self.slots@),
                i <= self.slots.len(),
                chosen@.len() == r@.len(),
                forall|a: int| 0 <= a < r@.len() ==> 0 <= #[trigger] chosen@[a] < i
                    && r@[a].0@ == ks[chosen@[a]]
                    && r@[a].1@ == self.slots@[chosen@[a]].1@.value
                    && is_prefix_of(prefix@, ks[chosen@[a]])
                    && !expired_at(self.slots@[chosen@[a]].1@, now),
                forall|a: int, b: int| 0 <= a < b < r@.len() ==> #[trigger] chosen@[a] < #[trigger] chosen@[b],
                forall|j: int| 0 <= j < i && is_prefix_of(prefix@, ks[j]) && !expired_at(self.slots@[j].1@, now)
                    ==> exists|a: int| 0 <= a < r@.len() && #[trigger] chosen@[a] == j,
            decreases self.slots.len() - i,
        {
            assert(ks[i as int] == self.slots@[i as int].0@);
            let ghost chosen_before = chosen@;
            let slot = &self.slots[i];
            if starts_with(slot.0.as_str(), prefix) && !slot.1.is_expired_at(now) {
                r.push((slot.0.clone(), slot.1.value.clone()));
                proof {
                    chosen@ = chosen@.push(i as int);
                }
            }
            proof {
                assert forall|j: int| 0 <= j <= i && is_prefix_of(prefix@, ks[j]) && !expired_at(self.slots@[j].1@, now)
                    implies exists|a: int| 0 <= a < r@.len() && #[trigger] chosen@[a] == j by {
                    if j < i {
                        let a = choose|a: int| 0 <= a < chosen_before.len() && #[trigger] chosen_before[a] == j;
                        assert(chosen@[a] == chosen_before[a]);
                    } else {
                        assert(chosen@[chosen_before.len() as int] == j);
                    }
                }
            }
            i = i + 1;
        }
        proof {
            let iv = item_views(r@);
            let rk = item_keys(iv);
            assert forall|a: int| 0 <= a < rk.len() implies #[trigger] rk[a] == ks[chosen@[a]] by {
                assert(iv[a] == (r@[a].0@, r@[a].1@));
            }
            assert forall|a: int, b: int| 0 <= a < rk.len() && 0 <= b < rk.len() && a != b implies rk[a] != rk[b] by {
                if a < b {
                    assert(chosen@[a] < chosen@[b]);
                } else {
                    assert(chosen@[b] < chosen@[a]);
                }
                assert(ks[chosen@[a]] != ks[chosen@[b]]);
            }
            let want = scan_keys(m, prefix@, now);
            assert forall|k: Seq<char>| rk.to_set().contains(k) implies want.contains(k) by {
                let a = choose|a: int| 0 <= a < rk.len() && rk[a] == k;
                let j = chosen@[a];
                assert(self.slots@[j].0@ == k);
                lemma_slot_of(self.slots@, j);
            }
            assert forall|k: Seq<char>| want.contains(k) implies rk.to_set().contains(k) by {
                let j = choose|j: int| 0 <= j < self.slots@.len() && self.slots@[j].0@ == k;
                lemma_slot_of(self.slots@, j);
                assert(ks[j] == k);
                let a = choose|a: int| 0 <= a < r@.len() && #[trigger] chosen@[a] == j;
                assert(rk[a] == k);
            }
            assert(rk.to_set() =~= want);
            assert forall|a: int| 0 <= a < iv.len() implies #[trigger] iv[a].1 == m[iv[a].0].value by {
                let j = chosen@[a];
                assert(iv[a] == (r@[a].0@, r@[a].1@));
                assert(self.slots@[j].0@ == iv[a].0);
                lemma_slot_of(self.slots@, j);
            }
        }
        r
    }

    /// The slot of `slots` holding `key`, if any.
    fn find_in(&self, slots: &Vec<(String, Entry)>, key: &str) -> (r: Option<usize>)
        ensures
            r matches Some(i) ==> i < slots@.len() && slots@[i as int].0@ == key@,
            r is None ==> forall|j: int| 0 <= j < slots@.len() ==> slots@[j].0@ != key@,
    {
        let wanted = String::from_str(key);
        let mut i: usize = 0;
        while i < slots.len()
            invariant
                i <= slots.len(),
                wanted@ == key@,
                forall|j: int| 0 <= j < i ==> slots@[j].0@ != key@,
            decreases slots.len() - i,
        {
            if slots[i].0 == wanted {
                return Some(i);
            }
            i = i + 1;
        }
        None
    }
}

/// A read at the time of a put gives the value put, whatever its time to live; a later read
/// gives it until the entry expires.
pub proof fn law_get_after_put(
    m: Map<Seq<char>, EntryView>,
    key: Seq<char>,
    value: ValueView,
    ttl_millis: Option<u64>,
    now: u64,
    later: u64,
)
    requires
        now <= later,
    ensures
        read_at(m.insert(key, stored_entry(value, ttl_millis, now)), key, now) == Some(value),
        read_at(m.insert(key, stored_entry(value, ttl_millis, now)), key, later) == (match ttl_millis {
            Some(d) => if add_capped(now, d) < later { None } else { Some(value) },
            None => Some(value),
        }),
{
}

/// A put leaves what every other key reads unchanged.
pub proof fn law_put_keeps_other_keys(
    m: Map<Seq<char>, EntryView>,
    key: Seq<char>,
    other: Seq<char>,
    e: EntryView,
    now: u64,
)
    requires
        key != other,
    ensures
        read_at(m.insert(key, e), other, now) == read_at(m, other, now),
{
}

/// After a delete, the key reads as absent, and every other key reads as before.
pub proof fn law_get_after_del(m: Map<Seq<char>, EntryView>, key: Seq<char>, other: Seq<char>, now: u64)
    requires
        key != other,
    ensures
        read_at(m.remove(key), key, now) is None,
        read_at(m.remove(key), other, now) == read_at(m, other, now),
{
}

/// A scan lists exactly the keys that start with the prefix and read as present at the
/// scan's time, each with the value that read gives; in particular a key put with a time to
/// live `d` at `put_time` is listed by a scan at any time from `put_time` to `d` later.
pub proof fn law_scan_lists_what_reads_find(
    items: Seq<(Seq<char>, ValueView)>,
    m: Map<Seq<char>, EntryView>,
    prefix: Seq<char>,
    now: u64,
    key: Seq<char>,
)
    requires
        lists_scan(items, m, prefix, now),
    ensures
        item_keys(items).contains(key) == (is_prefix_of(prefix, key) && read_at(m, key, now).is_some()),
        forall|i: int| 0 <= i < items.len() ==> read_at(m, #[trigger] items[i].0, now) == Some(items[i].1),
{
    assert(item_keys(items).to_set().contains(key) == item_keys(items).contains(key));
    assert forall|i: int| 0 <= i < items.len() implies read_at(m, #[trigger] items[i].0, now) == Some(items[i].1) by {
        assert(item_keys(items)[i] == items[i].0);
        assert(item_keys(items).to_set().contains(items[i].0));
    }
}

/// A key put with a time to live `d` at `put_time` is present to reads, and so to scans, at
/// every time from `put_time` until `d` later; a key put without one stays present.
pub proof fn law_put_is_live_until_expiry(
    m: Map<Seq<char>, EntryView>,
    key: Seq<char>,
    value: ValueView,
    ttl_millis: Option<u64>,
    put_time: u64,
    later: u64,
    prefix: Seq<char>,
)
    requires
        put_time <= later,
        ttl_millis matches Some(d) ==> later <= put_time + d,
        is_prefix_of(prefix, key),
    ensures
        read_at(m.insert(key, stored_entry(value, ttl_millis, put_time)), key, later) == Some(value),
        scan_keys(m.insert(key, stored_entry(value, ttl_millis, put_time)), prefix, later).contains(key),
{
    let m2 = m.insert(key, stored_entry(value, ttl_millis, put_time));
    assert(live_at(m2, later).dom().contains(key));
}

/// Removing the entries expired at `now` changes no read made at `now`.
pub proof fn law_purge_keeps_reads(m: Map<Seq<char>, EntryView>, key: Seq<char>, now: u64)
    ensures
        read_at(live_at(m, now), key, now) == read_at(m, key, now),
{
}

} // verus!
