//! The device tree: a mapping from device key to device record, with keys
//! unique and kept in lexicographic order for deterministic traversal.
//!
//! Built fresh from the flat list of enumerated devices on every pass and
//! read-only afterwards.

use vstd::prelude::*;

use crate::keys::key_lt;
use crate::keys::lemma_lex_asymmetric;
use crate::keys::lemma_lex_prefix_lt;
use crate::keys::lemma_lex_total;
use crate::keys::lemma_lex_transitive;
use crate::keys::lex_lt;
use crate::record::DeviceRecord;
use crate::record::DeviceRecordView;
use crate::record::key_of;

verus! {

/// One stored pair of a device tree.
pub struct TreeEntry {
    /// The key: bus number followed by the port chain
    pub key: Vec<u8>,
    /// The record stored under the key
    pub record: DeviceRecord,
}

/// The entries are strictly sorted by key, so keys are unique.
pub open spec fn tree_sorted(s: Seq<(Seq<u8>, DeviceRecordView)>) -> bool {
    forall|i: int, j: int|
        0 <= i < j < s.len() ==> lex_lt((#[trigger] s[i]).0, (#[trigger] s[j]).0)
}

/// Whether some entry holds the key.
pub open spec fn tree_has_key(s: Seq<(Seq<u8>, DeviceRecordView)>, k: Seq<u8>) -> bool {
    exists|i: int| 0 <= i < s.len() && (#[trigger] s[i]).0 == k
}

/// The record stored under a key, if any.
pub open spec fn spec_get(s: Seq<(Seq<u8>, DeviceRecordView)>, k: Seq<u8>) -> Option<
    DeviceRecordView,
> {
    if tree_has_key(s, k) {
        let i = choose|i: int| 0 <= i < s.len() && (#[trigger] s[i]).0 == k;
        Some(s[i].1)
    } else {
        None
    }
}

/// Length of the longest key held by any entry.
pub open spec fn max_key_len(s: Seq<(Seq<u8>, DeviceRecordView)>) -> int
    decreases s.len(),
{
    if s.len() == 0 {
        0
    } else if s.last().0.len() as int > max_key_len(s.drop_last()) {
        s.last().0.len() as int
    } else {
        max_key_len(s.drop_last())
    }
}

/// In a strictly sorted tree, a key determines its entry.
pub proof fn lemma_sorted_unique(s: Seq<(Seq<u8>, DeviceRecordView)>, i: int, j: int)
    requires
        tree_sorted(s),
        0 <= i < s.len(),
        0 <= j < s.len(),
        s[i].0 == s[j].0,
    ensures
        i == j,
{
    if i < j {
        lemma_lex_asymmetric(s[i].0, s[j].0);
    }
    if j < i {
        lemma_lex_asymmetric(s[j].0, s[i].0);
    }
}

/// An entry of a sorted tree is what looking its key up returns.
pub proof fn lemma_get_present(s: Seq<(Seq<u8>, DeviceRecordView)>, i: int)
    requires
        tree_sorted(s),
        0 <= i < s.len(),
    ensures
        spec_get(s, s[i].0) == Some(s[i].1),
{
    assert(tree_has_key(s, s[i].0));
    let j = choose|j: int| 0 <= j < s.len() && (#[trigger] s[j]).0 == s[i].0;
    lemma_sorted_unique(s, i, j);
}

/// No stored key is longer than the longest stored key.
pub proof fn lemma_key_len_le_max(s: Seq<(Seq<u8>, DeviceRecordView)>, i: int)
    requires
        0 <= i < s.len(),
    ensures
        s[i].0.len() <= max_key_len(s),
    decreases s.len(),
{
    if i == s.len() - 1 {
    } else {
        lemma_key_len_le_max(s.drop_last(), i);
    }
}

/// A key that resolves is no longer than the longest stored key.
pub proof fn lemma_get_len_le_max(s: Seq<(Seq<u8>, DeviceRecordView)>, k: Seq<u8>)
    requires
        spec_get(s, k) is Some,
    ensures
        k.len() <= max_key_len(s),
{
    let i = choose|i: int| 0 <= i < s.len() && (#[trigger] s[i]).0 == k;
    lemma_key_len_le_max(s, i);
}

/// Iteration in key order visits a parent strictly before any of its
/// descendants: if one entry's key is a strict prefix of another's, the
/// prefix entry stands earlier.
pub proof fn lemma_parent_before_descendant(
    s: Seq<(Seq<u8>, DeviceRecordView)>,
    i: int,
    j: int,
)
    requires
        tree_sorted(s),
        0 <= i < s.len(),
        0 <= j < s.len(),
        s[i].0.len() < s[j].0.len(),
        s[i].0 =~= s[j].0.subrange(0, s[i].0.len() as int),
    ensures
        i < j,
{
    lemma_lex_prefix_lt(s[i].0, s[j].0);
    if j < i {
        lemma_lex_asymmetric(s[j].0, s[i].0);
    }
    if i == j {
    }
}

/// The mapping a list of records builds: each record stored under its key,
/// a later record with the same key replacing an earlier one.
pub open spec fn records_map(rs: Seq<DeviceRecordView>) -> Map<Seq<u8>, DeviceRecordView>
    decreases rs.len(),
{
    if rs.len() == 0 {
        Map::empty()
    } else {
        records_map(rs.drop_last()).insert(key_of(rs.last()), rs.last())
    }
}

fn key_eq(a: &Vec<u8>, b: &Vec<u8>) -> (r: bool)
    ensures
        r == (a@ == b@),
{
    if a.len() != b.len() {
        proof {
            assert(a@ != b@);
        }
        return false;
    }
    let mut i: usize = 0;
    while i < a.len()
        invariant
            a@.len() == b@.len(),
            i <= a@.len(),
            forall|j: int| 0 <= j < i ==> a@[j] == b@[j],
        decreases a@.len() - i,
    {
        if a[i] != b[i] {
            proof {
                assert(a@ != b@);
            }
            return false;
        }
        i = i + 1;
    }
    proof {
        assert(a@ =~= b@);
    }
    true
}

/// A mapping from DeviceKey to DeviceRecord, keys unique and ordered.
pub struct DeviceTree {
    entries: Vec<TreeEntry>,
}

impl View for DeviceTree {
    type V = Seq<(Seq<u8>, DeviceRecordView)>;

    closed spec fn view(&self) -> Seq<(Seq<u8>, DeviceRecordView)> {
        Seq::new(self.entries@.len(), |i: int| (self.entries@[i].key@, self.entries@[i].record@))
    }
}

impl DeviceTree {
    /// The entries are strictly sorted by key.
    pub open spec fn wf(&self) -> bool {
        tree_sorted(self@)
    }

    /// An empty tree.
    pub fn new() -> (r: Self)
        ensures
            r.wf(),
            r@.len() == 0,
    {
        DeviceTree { entries: Vec::new() }
    }

    /// Number of entries.
    pub fn len(&self) -> (r: usize)
        ensures
            r == self@.len(),
    {
        self.entries.len()
    }

    /// The key of the entry at a position.
    pub fn key_at(&self, i: usize) -> (r: &Vec<u8>)
        requires
            i < self@.len(),
        ensures
            r@ == self@[i as int].0,
    {
        &self.entries[i].key
    }

    /// The record of the entry at a position.
    pub fn record_at(&self, i: usize) -> (r: &DeviceRecord)
        requires
            i < self@.len(),
        ensures
            r@ == self@[i as int].1,
    {
        &self.entries[i].record
    }

    /// Look a key up.
    pub fn get(&self, key: &Vec<u8>) -> (r: Option<&DeviceRecord>)
        requires
            self.wf(),
        ensures
            match r {
                Some(rec) => spec_get(self@, key@) == Some(rec@),
                None => spec_get(self@, key@) is None,
            },
    {
        let mut i: usize = 0;
        while i < self.entries.len()
            invariant
                self.wf(),
                i <= self@.len(),
                forall|j: int| 0 <= j < i ==> (#[trigger] self@[j]).0 != key@,
            decreases self@.len() - i,
        {
            if key_eq(&self.entries[i].key, key) {
                proof {
                    lemma_get_present(self@, i as int);
                }
                return Some(&self.entries[i].record);
            }
            i = i + 1;
        }
        proof {
            assert(!tree_has_key(self@, key@));
        }
        None
    }

    /// Store a record under its key, replacing any record already stored
    /// there; every other key's entry is untouched, and the order of the
    /// entries is kept.
    pub fn insert(&mut self, record: DeviceRecord)
        requires
            old(self).wf(),
        ensures
            final(self).wf(),
            spec_get(final(self)@, key_of(record@)) == Some(record@),
            forall|k: Seq<u8>|
                k != key_of(record@) ==> #[trigger] spec_get(final(self)@, k) == spec_get(
                    old(self)@,
                    k,
                ),
    {
        let ghost o = self@;
        let key = record.device_key();
        let ghost kk = key_of(record@);
        let mut idx: usize = 0;
        while idx < self.entries.len() && key_lt(&self.entries[idx].key, &key)
            invariant
                self@ == o,
                self.wf(),
                key@ == kk,
                idx <= self@.len(),
                forall|j: int| 0 <= j < idx ==> lex_lt((#[trigger] self@[j]).0, kk),
            decreases self@.len() - idx,
        {
            idx = idx + 1;
        }
        if idx < self.entries.len() && key_eq(&self.entries[idx].key, &key) {
            self.entries.remove(idx);
            self.entries.insert(idx, TreeEntry { key, record });
            proof {
                let n = self@;
                assert forall|i: int| 0 <= i < n.len() implies n[i] == (if i == idx {
                    (kk, record@)
                } else {
                    o[i]
                }) by {}
                assert(n =~= o.update(idx as int, (kk, record@)));
                self.lemma_after_update(o, idx as int, record@, kk);
            }
        } else {
            proof {
                if idx < o.len() {
                    lemma_lex_total(o[idx as int].0, kk);
                }
            }
            self.entries.insert(idx, TreeEntry { key, record });
            proof {
                let n = self@;
                assert forall|i: int| 0 <= i < n.len() implies n[i] == (if i < idx {
                    o[i]
                } else if i == idx {
                    (kk, record@)
                } else {
                    o[i - 1]
                }) by {}
                self.lemma_after_insert(o, idx as int, record@, kk);
            }
        }
    }

    /// After replacing the record at `idx`, whose key already was `kk`, the
    /// tree is still sorted and maps `kk` to the new record and every other
    /// key as before.
    proof fn lemma_after_update(
        &self,
        o: Seq<(Seq<u8>, DeviceRecordView)>,
        idx: int,
        rec: DeviceRecordView,
        kk: Seq<u8>,
    )
        requires
            tree_sorted(o),
            0 <= idx < o.len(),
            o[idx].0 == kk,
            self@ == o.update(idx, (kk, rec)),
        ensures
            self.wf(),
            spec_get(self@, kk) == Some(rec),
            forall|k: Seq<u8>|
                k != kk ==> #[trigger] spec_get(self@, k) == spec_get(o, k),
    {
        let n = self@;
        assert forall|i: int, j: int| 0 <= i < j < n.len() implies lex_lt(
            (#[trigger] n[i]).0,
            (#[trigger] n[j]).0,
        ) by {
            assert(n[i].0 == o[i].0);
            assert(n[j].0 == o[j].0);
        }
        lemma_get_present(n, idx);
        assert forall|k: Seq<u8>| k != kk implies #[trigger] spec_get(n, k) == spec_get(
            o,
            k,
        ) by {
            assert forall|i: int| 0 <= i < n.len() implies ((#[trigger] n[i]).0 == k <==> o[i].0
                == k) by {}
            if tree_has_key(o, k) {
                let i = choose|i: int| 0 <= i < o.len() && (#[trigger] o[i]).0 == k;
                assert(n[i].0 == k);
                lemma_get_present(n, i);
                lemma_get_present(o, i);
                assert(i != idx);
                assert(n[i].1 == o[i].1);
            } else {
                assert(!tree_has_key(n, k));
            }
        }
    }

    /// After inserting a fresh entry at `idx`, between the keys below `kk`
    /// and the keys above it, the tree is still sorted and maps `kk` to the
    /// new record and every other key as before.
    proof fn lemma_after_insert(
        &self,
        o: Seq<(Seq<u8>, DeviceRecordView)>,
        idx: int,
        rec: DeviceRecordView,
        kk: Seq<u8>,
    )
        requires
            tree_sorted(o),
            0 <= idx <= o.len(),
            forall|j: int| 0 <= j < idx ==> lex_lt((#[trigger] o[j]).0, kk),
            idx < o.len() ==> lex_lt(kk, o[idx].0),
            self@.len() == o.len() + 1,
            forall|i: int|
                0 <= i < self@.len() ==> #[trigger] self@[i] == (if i < idx {
                    o[i]
                } else if i == idx {
                    (kk, rec)
                } else {
                    o[i - 1]
                }),
        ensures
            self.wf(),
            spec_get(self@, kk) == Some(rec),
            forall|k: Seq<u8>|
                k != kk ==> #[trigger] spec_get(self@, k) == spec_get(o, k),
    {
        let n = self@;
        assert forall|i: int, j: int| 0 <= i < j < n.len() implies lex_lt(
            (#[trigger] n[i]).0,
            (#[trigger] n[j]).0,
        ) by {
            if i == idx && j > idx && j - 1 > idx {
                lemma_lex_transitive(kk, o[idx].0, o[j - 1].0);
            }
            if i < idx && j > idx {
                lemma_lex_transitive(o[i].0, kk, o[idx].0);
                if j - 1 > idx {
                    lemma_lex_transitive(o[i].0, o[idx].0, o[j - 1].0);
                }
            }
        }
        lemma_get_present(n, idx);
        assert forall|k: Seq<u8>| k != kk implies #[trigger] spec_get(n, k) == spec_get(
            o,
            k,
        ) by {
            if tree_has_key(o, k) {
                let i = choose|i: int| 0 <= i < o.len() && (#[trigger] o[i]).0 == k;
                let i2: int = if i < idx {
                    i
                } else {
                    i + 1
                };
                assert(n[i2].0 == k);
                lemma_get_present(n, i2);
                lemma_get_present(o, i);
                assert(n[i2].1 == o[i].1);
            } else {
                assert forall|i: int| 0 <= i < n.len() implies (#[trigger] n[i]).0 != k by {
                    if i < idx {
                        assert(n[i].0 == o[i].0);
                    } else if i > idx {
                        assert(n[i].0 == o[i - 1].0);
                    }
                }
                assert(!tree_has_key(n, k));
            }
        }
    }

    /// Build the tree for one enumeration pass: every record stored under
    /// its key, a later record replacing an earlier one with the same key.
    pub fn from_records(records: Vec<DeviceRecord>) -> (r: Self)
        ensures
            r.wf(),
            forall|k: Seq<u8>|
                #[trigger] spec_get(r@, k) == (if records_map(records@.map_values(|x: DeviceRecord| x@)).contains_key(k) {
                    Some(records_map(records@.map_values(|x: DeviceRecord| x@))[k])
                } else {
                    None
                }),
    {
        let ghost model = records@.map_values(|x: DeviceRecord| x@);
        let mut tree = DeviceTree::new();
        let mut i: usize = 0;
        proof {
            assert(model.subrange(0, 0) =~= Seq::<DeviceRecordView>::empty());
        }
        while i < records.len()
            invariant
                tree.wf(),
                i <= records@.len(),
                model == records@.map_values(|x: DeviceRecord| x@),
                forall|k: Seq<u8>|
                    #[trigger] spec_get(tree@, k) == (if records_map(model.subrange(0, i as int)).contains_key(k) {
                        Some(records_map(model.subrange(0, i as int))[k])
                    } else {
                        None
                    }),
            decreases records@.len() - i,
        {
            let rec = records[i].clone();
            proof {
                assert(rec@ == model[i as int]);
            }
            tree.insert(rec);
            proof {
                let pre = model.subrange(0, i as int);
                let cur = model.subrange(0, i + 1);
                assert(cur.drop_last() =~= pre);
                assert(cur.last() == model[i as int]);
            }
            i = i + 1;
        }
        proof {
            assert(model.subrange(0, model.len() as int) =~= model);
        }
        tree
    }
}

} // verus!
