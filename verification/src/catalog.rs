//! The catalog: package records by identifier, kept in identifier order.

use crate::record::{PackageRecord, RecordView};
use crate::text::{
    compare, lemma_precedes_asymmetric, lemma_precedes_total, lemma_precedes_transitive, precedes,
    strictly_sorted, Order,
};
use vstd::prelude::*;

verus! {

/// The mapping that takes each of `keys` to the record at the same position.
pub open spec fn map_of(keys: Seq<Seq<char>>, records: Seq<RecordView>) -> Map<
    Seq<char>,
    RecordView,
> {
    Map::new(|k: Seq<char>| keys.contains(k), |k: Seq<char>| records[keys.index_of(k)])
}

/// In a strictly sorted sequence each key stands at one position only, so
/// the mapping takes it to the record at that position.
pub proof fn lemma_map_of_at(keys: Seq<Seq<char>>, records: Seq<RecordView>, i: int)
    requires
        strictly_sorted(keys),
        0 <= i < keys.len(),
    ensures
        keys.contains(keys[i]),
        keys.index_of(keys[i]) == i,
        map_of(keys, records).contains_key(keys[i]),
        map_of(keys, records)[keys[i]] == records[i],
{
    let j = keys.index_of(keys[i]);
    if j < i {
        lemma_precedes_asymmetric(keys[j], keys[i]);
    } else if i < j {
        lemma_precedes_asymmetric(keys[i], keys[j]);
    }
}

/// Putting a new key at the one position that keeps the keys sorted adds
/// exactly that key to the mapping.
pub proof fn lemma_insert_entry(
    keys: Seq<Seq<char>>,
    records: Seq<RecordView>,
    p: int,
    key: Seq<char>,
    record: RecordView,
)
    requires
        strictly_sorted(keys),
        keys.len() == records.len(),
        0 <= p <= keys.len(),
        forall|i: int| 0 <= i < p ==> precedes(#[trigger] keys[i], key),
        forall|i: int| p <= i < keys.len() ==> precedes(key, #[trigger] keys[i]),
    ensures
        strictly_sorted(keys.insert(p, key)),
        map_of(keys.insert(p, key), records.insert(p, record)) == map_of(keys, records).insert(
            key,
            record,
        ),
{
    let keys2 = keys.insert(p, key);
    let records2 = records.insert(p, record);
    assert forall|i: int, j: int| 0 <= i < j < keys2.len() implies precedes(
        keys2[i],
        keys2[j],
    ) by {
        if i < p && j > p {
            assert(keys2[i] == keys[i] && keys2[j] == keys[j - 1]);
        } else if i < p && j < p {
            assert(keys2[i] == keys[i] && keys2[j] == keys[j]);
        } else if i < p {
            assert(keys2[i] == keys[i] && keys2[j] == key);
        } else if i == p {
            assert(keys2[j] == keys[j - 1]);
        } else {
            assert(keys2[i] == keys[i - 1] && keys2[j] == keys[j - 1]);
        }
    }
    let old_map = map_of(keys, records);
    let new_map = map_of(keys2, records2);
    assert forall|k: Seq<char>| #[trigger] new_map.contains_key(k) implies old_map.insert(
        key,
        record,
    ).contains_key(k) by {
        let i = keys2.index_of(k);
        if i < p {
            assert(keys[i] == k);
        } else if i > p {
            assert(keys[i - 1] == k);
        }
    }
    assert forall|k: Seq<char>| #[trigger]
        old_map.insert(key, record).contains_key(k) implies new_map.contains_key(k)
        && new_map[k] == old_map.insert(key, record)[k] by {
        if k == key {
            assert(keys2[p] == key);
            lemma_map_of_at(keys2, records2, p);
        } else {
            let i = keys.index_of(k);
            let i2 = if i < p { i } else { i + 1 };
            assert(keys2[i2] == k);
            assert(records2[i2] == records[i]);
            lemma_map_of_at(keys2, records2, i2);
        }
    }
    assert(new_map =~= old_map.insert(key, record));
}

/// A package catalog. No identifier occurs twice, and the entries stand in
/// lexicographic order of their identifiers.
#[derive(Debug, Clone, PartialEq, Eq)]
pub struct Catalog {
    entries: Vec<(String, PackageRecord)>,
}

impl Catalog {
    /// The identifiers, in the order in which the catalog holds them.
    pub closed spec fn keys(&self) -> Seq<Seq<char>> {
        Seq::new(self.entries@.len(), |i: int| self.entries@[i].0@)
    }

    /// The records, each at the position of its identifier.
    pub closed spec fn records(&self) -> Seq<RecordView> {
        Seq::new(self.entries@.len(), |i: int| self.entries@[i].1@)
    }

    /// The catalog's invariant: the identifiers are strictly sorted.
    pub open spec fn wf(&self) -> bool {
        &&& strictly_sorted(self.keys())
        &&& self.keys().len() == self.records().len()
    }

    /// An empty catalog.
    pub fn new() -> (r: Catalog)
        ensures
            r.wf(),
            r.keys() == Seq::<Seq<char>>::empty(),
            r@ == Map::<Seq<char>, RecordView>::empty(),
    {
        let r = Catalog { entries: Vec::new() };
        proof {
            assert(r.keys() =~= Seq::<Seq<char>>::empty());
            assert(r@ =~= Map::<Seq<char>, RecordView>::empty());
        }
        r
    }

    /// Whether the catalog's invariant holds.
    pub fn is_well_formed(&self) -> (r: bool)
        ensures
            r == self.wf(),
    {
        let n: usize = self.entries.len();
        let mut i: usize = 1;
        while i < n
            invariant
                n == self.entries.len(),
                1 <= i,
                forall|a: int, b: int|
                    0 <= a < b < i && b < n ==> precedes(self.keys()[a], self.keys()[b]),
            decreases n - i,
        {
            assert(self.keys()[i as int - 1] == self.entries@[i as int - 1].0@);
            assert(self.keys()[i as int] == self.entries@[i as int].0@);
            if compare(self.entries[i - 1].0.as_str(), self.entries[i].0.as_str())
                != Order::Before {
                return false;
            }
            proof {
                assert forall|a: int| 0 <= a < i implies precedes(
                    self.keys()[a],
                    self.keys()[i as int],
                ) by {
                    if a < i - 1 {
                        lemma_precedes_transitive(
                            self.keys()[a],
                            self.keys()[i as int - 1],
                            self.keys()[i as int],
                        );
                    }
                }
            }
            i += 1;
        }
        true
    }

    /// The number of entries.
    pub fn len(&self) -> (n: usize)
        ensures
            n == self.keys().len(),
    {
        self.entries.len()
    }

    /// The identifier at position `i`.
    pub fn key_at(&self, i: usize) -> (r: &String)
        requires
            i < self.keys().len(),
        ensures
            r@ == self.keys()[i as int],
    {
        &self.entries[i].0
    }

    /// The record at position `i`.
    pub fn record_at(&self, i: usize) -> (r: &PackageRecord)
        requires
            i < self.keys().len(),
        ensures
            r@ == self.records()[i as int],
    {
        &self.entries[i].1
    }

    /// The number of identifiers that precede `key`, found by bisection: the
    /// position at which `key` stands, or would have to be put.
    fn lower_bound(&self, key: &str) -> (p: usize)
        requires
            self.wf(),
        ensures
            p <= self.keys().len(),
            forall|j: int| 0 <= j < p ==> precedes(#[trigger] self.keys()[j], key@),
            forall|j: int|
                p <= j < self.keys().len() ==> !precedes(#[trigger] self.keys()[j], key@),
    {
        let mut lo: usize = 0;
        let mut hi: usize = self.entries.len();
        while lo < hi
            invariant
                self.wf(),
                lo <= hi <= self.entries.len(),
                forall|j: int| 0 <= j < lo ==> precedes(#[trigger] self.keys()[j], key@),
                forall|j: int|
                    hi <= j < self.keys().len() ==> !precedes(#[trigger] self.keys()[j], key@),
            decreases hi - lo,
        {
            let mid: usize = lo + (hi - lo) / 2;
            assert(self.keys()[mid as int] == self.entries@[mid as int].0@);
            if compare(self.entries[mid].0.as_str(), key) == Order::Before {
                proof {
                    assert forall|j: int| 0 <= j < mid + 1 implies precedes(
                        #[trigger] self.keys()[j],
                        key@,
                    ) by {
                        if j < mid {
                            lemma_precedes_transitive(
                                self.keys()[j],
                                self.keys()[mid as int],
                                key@,
                            );
                        }
                    }
                }
                lo = mid + 1;
            } else {
                proof {
                    assert forall|j: int| mid <= j < self.keys().len() implies !precedes(
                        #[trigger] self.keys()[j],
                        key@,
                    ) by {
                        if mid < j && precedes(self.keys()[j], key@) {
                            lemma_precedes_transitive(
                                self.keys()[mid as int],
                                self.keys()[j],
                                key@,
                            );
                        }
                    }
                }
                hi = mid;
            }
        }
        lo
    }

    /// The position of `key` among the identifiers, if it is one of them.
    pub fn position(&self, key: &str) -> (r: Option<usize>)
        requires
            self.wf(),
        ensures
            match r {
                Some(i) => i < self.keys().len() && self.keys()[i as int] == key@,
                None => !self.keys().contains(key@),
            },
    {
        let p: usize = self.lower_bound(key);
        if p < self.entries.len() {
            assert(self.keys()[p as int] == self.entries@[p as int].0@);
            if compare(self.entries[p].0.as_str(), key) == Order::Same {
                return Some(p);
            }
        }
        proof {
            assert forall|j: int| 0 <= j < self.keys().len() implies self.keys()[j] != key@ by {
                if j < p {
                    lemma_precedes_asymmetric(self.keys()[j], key@);
                } else {
                    lemma_precedes_total(self.keys()[p as int], key@);
                    lemma_precedes_later(self.keys(), p as int, j, key@);
                    lemma_precedes_asymmetric(key@, self.keys()[j]);
                }
            }
        }
        None
    }

    /// The record stored under `key`.
    pub fn get(&self, key: &str) -> (r: Option<&PackageRecord>)
        requires
            self.wf(),
        ensures
            match r {
                Some(record) => self@.contains_key(key@) && record@ == self@[key@],
                None => !self@.contains_key(key@),
            },
    {
        match self.position(key) {
            Some(i) => {
                proof {
                    lemma_map_of_at(self.keys(), self.records(), i as int);
                }
                Some(&self.entries[i].1)
            },
            None => None,
        }
    }

    /// Stores `record` under `key`, in place of any record that stood there.
    pub fn insert(&mut self, key: String, record: PackageRecord)
        requires
            old(self).wf(),
        ensures
            final(self).wf(),
            final(self)@ == old(self)@.insert(key@, record@),
    {
        let p: usize = self.lower_bound(key.as_str());
        let mut found: bool = false;
        if p < self.entries.len() {
            assert(self.keys()[p as int] == self.entries@[p as int].0@);
            found = compare(self.entries[p].0.as_str(), key.as_str()) == Order::Same;
            proof {
                lemma_precedes_total(self.keys()[p as int], key@);
            }
        }
        let ghost old_keys = self.keys();
        let ghost old_records = self.records();
        if found {
            self.entries.remove(p);
        }
        let ghost keys = self.keys();
        let ghost records = self.records();
        proof {
            if found {
                assert(keys =~= old_keys.remove(p as int));
                assert(records =~= old_records.remove(p as int));
                assert(old_keys[p as int] == key@);
                assert forall|i: int| p <= i < keys.len() implies precedes(
                    key@,
                    #[trigger] keys[i],
                ) by {
                    assert(keys[i] == old_keys[i + 1]);
                }
                lemma_insert_entry(keys, records, p as int, key@, old_records[p as int]);
                assert(keys.insert(p as int, key@) =~= old_keys);
                assert(records.insert(p as int, old_records[p as int]) =~= old_records);
            } else {
                assert forall|i: int| p <= i < keys.len() implies precedes(
                    key@,
                    #[trigger] keys[i],
                ) by {
                    lemma_precedes_later(keys, p as int, i, key@);
                }
            }
            lemma_insert_entry(keys, records, p as int, key@, record@);
        }
        self.entries.insert(p, (key, record));
        proof {
            assert(self.keys() =~= keys.insert(p as int, key@));
            assert(self.records() =~= records.insert(p as int, record@));
            if found {
                assert(map_of(keys, records).insert(key@, old_records[p as int]).insert(
                    key@,
                    record@,
                ) =~= map_of(keys, records).insert(key@, record@));
            }
        }
    }
}

impl View for Catalog {
    type V = Map<Seq<char>, RecordView>;

    open spec fn view(&self) -> Map<Seq<char>, RecordView> {
        map_of(self.keys(), self.records())
    }
}

/// Where `key` precedes the key at `p`, it precedes every later key too.
proof fn lemma_precedes_later(keys: Seq<Seq<char>>, p: int, i: int, key: Seq<char>)
    requires
        strictly_sorted(keys),
        0 <= p <= i < keys.len(),
        precedes(key, keys[p]),
    ensures
        precedes(key, keys[i]),
{
    if p < i {
        lemma_precedes_transitive(key, keys[p], keys[i]);
    }
}

} // verus!
