//! Scans over the keys of a store that start with a prefix, in ascending key order.
use vstd::prelude::*;
use crate::kv::entry::clock_millis;
use crate::kv::store::{item_keys, item_views, lists_scan, KvStore};
use crate::kv::value::{Value, ValueView};
use crate::text::{lemma_insert_ascending, lex_lt, order_of, strictly_ascending, TextOrder};

verus! {

/// The items of a scan, in ascending key order, and how many of them were handed out.
pub struct ScanIterator {
    items: Vec<(String, Value)>,
    index: usize,
}

impl View for ScanIterator {
    type V = (Seq<(Seq<char>, ValueView)>, nat);

    closed spec fn view(&self) -> (Seq<(Seq<char>, ValueView)>, nat) {
        (item_views(self.items@), self.index as nat)
    }
}

/// Where an item with key `key` goes in `sorted`: after every smaller key, at the first
/// key that is not smaller.
fn ascending_position(sorted: &Vec<(String, Value)>, key: &str) -> (p: usize)
    ensures
        p <= sorted@.len(),
        forall|a: int| 0 <= a < p ==> lex_lt(#[trigger] item_keys(item_views(sorted@))[a], key@),
        p < sorted@.len() ==> lex_lt(key@, item_keys(item_views(sorted@))[p as int])
            || key@ == item_keys(item_views(sorted@))[p as int],
{
    let ghost sk = item_keys(item_views(sorted@));
    let mut p: usize = 0;
    let mut done = false;
    while !done && p < sorted.len()
        invariant
            sk == item_keys(item_views(sorted@)),
            p <= sorted@.len(),
            forall|a: int| 0 <= a < p ==> lex_lt(#[trigger] sk[a], key@),
            done ==> p < sorted@.len() && (lex_lt(key@, sk[p as int]) || key@ == sk[p as int]),
        decreases sorted@.len() - p + (if done { 0int } else { 1int }),
    {
        assert(sk[p as int] == sorted@[p as int].0@);
        match order_of(sorted[p].0.as_str(), key) {
            TextOrder::Before => {
                p = p + 1;
            },
            _ => {
                done = true;
            },
        }
    }
    p
}

/// The items of `items` ordered by ascending key.
fn sort_by_key(items: Vec<(String, Value)>) -> (r: Vec<(String, Value)>)
    requires
        item_keys(item_views(items@)).no_duplicates(),
    ensures
        item_views(r@).to_multiset() == item_views(items@).to_multiset(),
        strictly_ascending(item_keys(item_views(r@))),
{
    broadcast use vstd::seq_lib::group_to_multiset_ensures;
    broadcast use vstd::multiset::group_multiset_axioms;

    let ghost src = item_views(items@);
    let ghost sk_src = item_keys(src);
    let mut rest = items;
    let mut sorted: Vec<(String, Value)> = Vec::new();
    proof {
        reveal(strictly_ascending);
        assert(item_views(sorted@).to_multiset() =~= vstd::multiset::Multiset::empty());
        assert(item_views(rest@).to_multiset().add(vstd::multiset::Multiset::empty()) =~= item_views(rest@).to_multiset());
    }
    while rest.len() > 0
        invariant
            sk_src == item_keys(src),
            sk_src.no_duplicates(),
            rest@.len() <= src.len(),
            item_views(rest@) == src.take(rest@.len() as int),
            item_views(sorted@).to_multiset().add(item_views(rest@).to_multiset()) == src.to_multiset(),
            forall|a: int, j: int| 0 <= a < sorted@.len() && 0 <= j < rest@.len()
                ==> #[trigger] item_keys(item_views(sorted@))[a] != #[trigger] sk_src[j],
            strictly_ascending(item_keys(item_views(sorted@))),
        decreases rest@.len(),
    {
        let ghost lo = rest@.len() - 1;
        let ghost rest_view = item_views(rest@);
        let ghost sv = item_views(sorted@);
        let ghost sk = item_keys(sv);
        let x = rest.pop().unwrap();
        let ghost xv = (x.0@, x.1@);
        proof {
            assert(rest_view[lo] == src[lo]);
            assert(item_views(rest@) =~= src.take(lo));
            assert(rest_view =~= item_views(rest@).push(xv));
            assert(sk_src[lo] == x.0@);
        }
        let p = ascending_position(&sorted, x.0.as_str());
        proof {
            if p < sv.len() {
                assert(sk[p as int] != sk_src[lo]);
            }
            lemma_insert_ascending(sk, p as int, x.0@);
        }
        sorted.insert(p, x);
        proof {
            let nv = item_views(sorted@);
            assert(nv =~= sv.insert(p as int, xv));
            assert(item_keys(nv) =~= sk.insert(p as int, x.0@));
            vstd::seq_lib::to_multiset_insert(sv, p as int, xv);
            vstd::seq_lib::to_multiset_build(item_views(rest@), xv);
            assert(nv.to_multiset() == sv.to_multiset().insert(xv));
            assert(rest_view.to_multiset() == item_views(rest@).to_multiset().insert(xv));
            assert(nv.to_multiset().add(item_views(rest@).to_multiset())
                =~= sv.to_multiset().add(rest_view.to_multiset()));
            assert forall|a: int, j: int| 0 <= a < sorted@.len() && 0 <= j < rest@.len()
                implies #[trigger] item_keys(nv)[a] != #[trigger] sk_src[j] by {
                if a < p {
                    assert(item_keys(nv)[a] == sk[a]);
                } else if a == p {
                    assert(item_keys(nv)[a] == sk_src[lo]);
                } else {
                    assert(item_keys(nv)[a] == sk[a - 1]);
                }
            }
        }
    }
    proof {
        assert(item_views(rest@).to_multiset() =~= vstd::multiset::Multiset::empty());
        assert(item_views(sorted@).to_multiset().add(vstd::multiset::Multiset::empty()) =~= item_views(sorted@).to_multiset());
    }
    sorted
}

impl ScanIterator {
    #[verifier::type_invariant]
    closed spec fn index_in_range(&self) -> bool {
        self.index <= self.items@.len()
    }

    /// A scan of the keys of `store` that start with `prefix` and have not expired at
    /// `now`, in ascending key order, with none handed out yet.
    pub fn new_at(store: &KvStore, prefix: &str, now: u64) -> (r: Self)
        ensures
            lists_scan(r@.0, store@, prefix@, now),
            strictly_ascending(item_keys(r@.0)),
            r@.1 == 0,
    {
        let found = store.scan_items_at(prefix, now);
        let ghost fv = item_views(found@);
        let items = sort_by_key(found);
        proof {
            broadcast use vstd::seq_lib::group_to_multiset_ensures;

            reveal(strictly_ascending);
            let iv = item_views(items@);
            let ik = item_keys(iv);
            let fk = item_keys(fv);
            assert forall|a: int, b: int| 0 <= a < ik.len() && 0 <= b < ik.len() && a != b implies ik[a] != ik[b] by {
                if a < b {
                    assert(lex_lt(ik[a], ik[b]));
                } else {
                    assert(lex_lt(ik[b], ik[a]));
                }
            }
            assert forall|k: Seq<char>| ik.to_set().contains(k) implies fk.to_set().contains(k) by {
                let a = choose|a: int| 0 <= a < ik.len() && ik[a] == k;
                assert(iv.contains(iv[a]));
                assert(fv.to_multiset().count(iv[a]) > 0);
                let j = choose|j: int| 0 <= j < fv.len() && fv[j] == iv[a];
                assert(fk[j] == k);
            }
            assert forall|k: Seq<char>| fk.to_set().contains(k) implies ik.to_set().contains(k) by {
                let j = choose|j: int| 0 <= j < fk.len() && fk[j] == k;
                assert(fv.contains(fv[j]));
                assert(iv.to_multiset().count(fv[j]) > 0);
                let a = choose|a: int| 0 <= a < iv.len() && iv[a] == fv[j];
                assert(ik[a] == k);
            }
            assert(ik.to_set() =~= fk.to_set());
            assert forall|a: int| 0 <= a < iv.len() implies #[trigger] iv[a].1 == store@[iv[a].0].value by {
                assert(iv.contains(iv[a]));
                assert(fv.to_multiset().count(iv[a]) > 0);
                let j = choose|j: int| 0 <= j < fv.len() && fv[j] == iv[a];
                assert(fv[j].1 == store@[fv[j].0].value);
            }
        }
        ScanIterator { items, index: 0 }
    }

    /// A scan of the keys of `store` that start with `prefix` and have not expired at the
    /// current time, in ascending key order, with none handed out yet.
    pub fn new(store: &KvStore, prefix: &str) -> (r: Self)
        ensures
            exists|now: u64| lists_scan(r@.0, store@, prefix@, now),
            strictly_ascending(item_keys(r@.0)),
            r@.1 == 0,
    {
        let now = clock_millis();
        Self::new_at(store, prefix, now)
    }

    /// The next item of the scan, or `None` once all were handed out.
    pub fn next(&mut self) -> (r: Option<(String, Value)>)
        ensures
            final(self)@.0 == old(self)@.0,
            old(self)@.1 < old(self)@.0.len() ==> (r matches Some(item)
                && (item.0@, item.1@) == old(self)@.0[old(self)@.1 as int]
                && final(self)@.1 == old(self)@.1 + 1),
            old(self)@.1 >= old(self)@.0.len() ==> r is None && final(self)@.1 == old(self)@.1,
    {
        proof { use_type_invariant(&*self); }
        if self.index < self.items.len() {
            let item = &self.items[self.index];
            let r = (item.0.clone(), item.1.clone());
            assert(item_views(self.items@)[self.index as int] == (r.0@, r.1@));
            self.index = self.index + 1;
            Some(r)
        } else {
            None
        }
    }
}

} // verus!
