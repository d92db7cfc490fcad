//! The local side of a sync: the records of the ledger ordered by key, and
//! the set of keys they carry.

use vstd::prelude::*;
use crate::sync::protocol::{key_le, key_less, key_lt, keys_of, spec_key, RecordKey, SyncRecord};

verus! {

broadcast use {
    vstd::seq_lib::group_to_multiset_ensures,
    vstd::multiset::group_multiset_axioms,
    vstd::seq_lib::group_seq_properties,
};

/// Records in non-decreasing key order.
pub open spec fn sorted_by_key(s: Seq<SyncRecord>) -> bool {
    forall|i: int, j: int| 0 <= i < j < s.len() ==> key_le(spec_key(#[trigger] s[i]), spec_key(#[trigger] s[j]))
}

/// Keys in strictly increasing order (so without repetition).
pub open spec fn strictly_sorted(ks: Seq<RecordKey>) -> bool {
    forall|i: int, j: int| 0 <= i < j < ks.len() ==> key_lt(#[trigger] ks[i], #[trigger] ks[j])
}

/// The records of `s` that carry key `k`, in order.
pub open spec fn with_key(s: Seq<SyncRecord>, k: RecordKey) -> Seq<SyncRecord> {
    s.filter(|r: SyncRecord| spec_key(r) == k)
}

/// `with_key` of a one-record sequence.
proof fn lemma_with_key_single(r: SyncRecord, k: RecordKey)
    ensures
        with_key(seq![r], k) == if spec_key(r) == k { seq![r] } else { Seq::<SyncRecord>::empty() },
{
    reveal_with_fuel(Seq::filter, 2);
    assert(seq![r].drop_last() =~= Seq::<SyncRecord>::empty());
}

/// Inserting `r` after every record with a smaller key puts it first among
/// the records with its key, and leaves the others with each key in place.
proof fn lemma_with_key_insert(s: Seq<SyncRecord>, pos: int, r: SyncRecord, k: RecordKey)
    requires
        0 <= pos <= s.len(),
        forall|j: int| 0 <= j < pos ==> key_lt(spec_key(#[trigger] s[j]), spec_key(r)),
    ensures
        with_key(s.insert(pos, r), k) == if spec_key(r) == k { seq![r] + with_key(s, k) } else { with_key(s, k) },
{
    let p = |x: SyncRecord| spec_key(x) == k;
    assert(s.insert(pos, r) =~= s.take(pos) + seq![r] + s.skip(pos));
    assert(s =~= s.take(pos) + s.skip(pos));
    Seq::filter_distributes_over_add(s.take(pos) + seq![r], s.skip(pos), p);
    Seq::filter_distributes_over_add(s.take(pos), seq![r], p);
    Seq::filter_distributes_over_add(s.take(pos), s.skip(pos), p);
    lemma_with_key_single(r, k);
    if spec_key(r) == k {
        assert forall|j: int| 0 <= j < s.take(pos).len() implies !p(#[trigger] s.take(pos)[j]) by {
            assert(key_lt(spec_key(s[j]), spec_key(r)));
            crate::sync::protocol::lemma_key_rank_injective(spec_key(s[j]), spec_key(r));
        }
        if s.take(pos).filter(p).len() > 0 {
            s.take(pos).lemma_filter_pred(p, 0);
            let x = s.take(pos).filter(p)[0];
            assert(s.take(pos).filter(p).contains(x));
            s.take(pos).lemma_filter_contains_rev(p, x);
        }
        assert(s.take(pos).filter(p) =~= Seq::<SyncRecord>::empty());
        assert(with_key(s, k) =~= s.skip(pos).filter(p));
        assert(with_key(s.insert(pos, r), k) =~= seq![r] + with_key(s, k));
    } else {
        assert(with_key(s.insert(pos, r), k) =~= with_key(s, k));
    }
}

/// The records of the local ledger, ordered by key, and their keys.
pub struct LocalArchive {
    pub records: Vec<SyncRecord>,
    pub keys: Vec<RecordKey>,
}

impl LocalArchive {
    /// Records ordered by key; keys strictly ordered; a key is listed exactly
    /// when some record carries it.
    pub open spec fn wf(&self) -> bool {
        &&& sorted_by_key(self.records@)
        &&& strictly_sorted(self.keys@)
        &&& forall|k: RecordKey| #[trigger] self.keys@.contains(k) <==> keys_of(self.records@).contains(k)
    }

    /// Builds the archive of `records`: the same records, ordered by key
    /// (records with equal keys keep their order), and the set of their keys.
    pub fn new(records: Vec<SyncRecord>) -> (a: LocalArchive)
        ensures
            a.wf(),
            a.records@.to_multiset() == records@.to_multiset(),
            forall|k: RecordKey| #[trigger] with_key(a.records@, k) == with_key(records@, k),
    {
        let ghost input = records@;
        let mut rest = records;
        let mut out: Vec<SyncRecord> = Vec::new();
        proof {
            broadcast use vstd::multiset::group_multiset_properties;
            assert(out@ =~= Seq::<SyncRecord>::empty());
            assert(out@.to_multiset() =~= vstd::multiset::Multiset::<SyncRecord>::empty());
        }
        while rest.len() > 0
            invariant
                rest@ == input.take(rest@.len() as int),
                rest@.len() <= input.len(),
                sorted_by_key(out@),
                out@.to_multiset().add(rest@.to_multiset()) == input.to_multiset(),
                forall|kk: RecordKey| #[trigger] with_key(out@, kk) == with_key(input.skip(rest@.len() as int), kk),
            decreases rest.len(),
        {
            let ghost before = rest@;
            let r = rest.pop().unwrap();
            proof {
                assert(before =~= rest@.push(r));
                assert(rest@ =~= input.take(rest@.len() as int));
            }
            let k = r.key();
            let mut pos: usize = 0;
            while pos < out.len() && key_less(&out[pos].key(), &k)
                invariant
                    pos <= out.len(),
                    forall|j: int| 0 <= j < pos ==> key_lt(spec_key(#[trigger] out@[j]), k),
                decreases out.len() - pos,
            {
                pos = pos + 1;
            }
            let ghost old_out = out@;
            out.insert(pos, r);
            proof {
                assert(out@ == old_out.insert(pos as int, r));
                let n = rest@.len() as int;
                assert(input[n] == r);
                assert(input.skip(n) =~= seq![r] + input.skip(n + 1));
                assert forall|kk: RecordKey| #[trigger] with_key(out@, kk) == with_key(input.skip(n), kk) by {
                    lemma_with_key_insert(old_out, pos as int, r, kk);
                    lemma_with_key_single(r, kk);
                    Seq::filter_distributes_over_add(seq![r], input.skip(n + 1), |x: SyncRecord| spec_key(x) == kk);
                    assert(with_key(old_out, kk) == with_key(input.skip(n + 1), kk));
                }
                assert forall|i: int, j: int| 0 <= i < j < out@.len() implies key_le(
                    spec_key(#[trigger] out@[i]),
                    spec_key(#[trigger] out@[j]),
                ) by {
                    if i < pos && j == pos {
                    } else if i == pos && j > pos {
                        assert(out@[j] == old_out[j - 1]);
                        if pos < old_out.len() {
                            assert(key_le(spec_key(old_out[pos as int]), spec_key(old_out[j - 1])));
                        }
                    } else if i < pos && j > pos {
                        assert(out@[j] == old_out[j - 1]);
                    } else if i > pos {
                        assert(out@[i] == old_out[i - 1]);
                        assert(out@[j] == old_out[j - 1]);
                    }
                }
                broadcast use vstd::multiset::group_multiset_properties;
            }
        }
        proof {
            broadcast use vstd::multiset::group_multiset_properties;
            assert(input.skip(0) =~= input);
            assert(rest@ =~= Seq::<SyncRecord>::empty());
            assert(rest@.to_multiset() =~= vstd::multiset::Multiset::<SyncRecord>::empty());
        }
        let mut keys: Vec<RecordKey> = Vec::new();
        let mut i: usize = 0;
        while i < out.len()
            invariant
                i <= out.len(),
                sorted_by_key(out@),
                strictly_sorted(keys@),
                i > 0 ==> keys@.len() > 0 && keys@.last() == spec_key(out@[i - 1]),
                i == 0 ==> keys@.len() == 0,
                forall|k: RecordKey| #[trigger] keys@.contains(k) <==> keys_of(out@.take(i as int)).contains(k),
            decreases out.len() - i,
        {
            let k = out[i].key();
            let ghost prev = keys@;
            let ghost k0 = keys_of(out@.take(i as int));
            proof {
                assert(keys_of(out@.take(i + 1)) =~= k0.push(k));
            }
            if keys.len() == 0 || key_less(&keys[keys.len() - 1], &k) {
                keys.push(k);
                proof {
                    broadcast use vstd::seq_lib::group_seq_properties;
                    assert(keys@ == prev.push(k));
                    assert forall|a: int, b: int| 0 <= a < b < keys@.len() implies key_lt(
                        #[trigger] keys@[a],
                        #[trigger] keys@[b],
                    ) by {
                        if b == keys@.len() - 1 && a < prev.len() - 1 {
                            assert(key_lt(prev[a], prev.last()));
                        }
                    }
                    assert forall|kk: RecordKey| #[trigger] keys@.contains(kk) <==> k0.push(k).contains(kk) by {
                        assert(keys@.contains(kk) <==> prev.contains(kk) || kk == k);
                        assert(k0.push(k).contains(kk) <==> k0.contains(kk) || kk == k);
                    }
                }
            } else {
                proof {
                    broadcast use vstd::seq_lib::group_seq_properties;
                    let last = keys@.last();
                    assert(key_le(spec_key(out@[i - 1]), spec_key(out@[i as int])));
                    crate::sync::protocol::lemma_key_rank_injective(last, k);
                    assert(last == k);
                    assert(prev.contains(k));
                    assert forall|kk: RecordKey| #[trigger] keys@.contains(kk) <==> k0.push(k).contains(kk) by {
                        assert(k0.push(k).contains(kk) <==> k0.contains(kk) || kk == k);
                    }
                }
            }
            i = i + 1;
        }
        proof {
            assert(out@.take(out@.len() as int) =~= out@);
        }
        LocalArchive { records: out, keys }
    }

    /// Whether some local record carries `key` (binary search over the keys).
    pub fn contains_key(&self, key: &RecordKey) -> (b: bool)
        requires
            self.wf(),
        ensures
            b == self.keys@.contains(*key),
    {
        let mut lo: usize = 0;
        let mut hi: usize = self.keys.len();
        while lo < hi
            invariant
                self.wf(),
                lo <= hi <= self.keys@.len(),
                forall|j: int| 0 <= j < lo ==> key_lt(#[trigger] self.keys@[j], *key),
                forall|j: int| hi <= j < self.keys@.len() ==> key_lt(*key, #[trigger] self.keys@[j]),
            decreases hi - lo,
        {
            let mid = lo + (hi - lo) / 2;
            let m = self.keys[mid];
            if key_less(&m, key) {
                proof {
                    assert forall|j: int| 0 <= j < mid + 1 implies key_lt(#[trigger] self.keys@[j], *key) by {
                        if j < mid {
                            assert(key_lt(self.keys@[j], self.keys@[mid as int]));
                        }
                    }
                }
                lo = mid + 1;
            } else if key_less(key, &m) {
                proof {
                    assert forall|j: int| mid <= j < self.keys@.len() implies key_lt(*key, #[trigger] self.keys@[j]) by {
                        if j > mid {
                            assert(key_lt(self.keys@[mid as int], self.keys@[j]));
                        }
                    }
                }
                hi = mid;
            } else {
                proof {
                    crate::sync::protocol::lemma_key_rank_injective(m, *key);
                }
                return true;
            }
        }
        proof {
            if self.keys@.contains(*key) {
                let w = choose|w: int| 0 <= w < self.keys@.len() && self.keys@[w] == *key;
                assert(key_lt(self.keys@[w], *key) || key_lt(*key, self.keys@[w]));
            }
        }
        false
    }

    /// The keys of `remote_keys` that no local record carries, in their order
    /// (repetitions kept).
    pub fn missing_from(&self, remote_keys: &Vec<RecordKey>) -> (missing: Vec<RecordKey>)
        requires
            self.wf(),
        ensures
            missing@ == remote_keys@.filter(|k: RecordKey| !self.keys@.contains(k)),
    {
        let mut missing: Vec<RecordKey> = Vec::new();
        let mut i: usize = 0;
        while i < remote_keys.len()
            invariant
                self.wf(),
                i <= remote_keys.len(),
                missing@ == remote_keys@.take(i as int).filter(|k: RecordKey| !self.keys@.contains(k)),
            decreases remote_keys.len() - i,
        {
            let k = remote_keys[i];
            proof {
                reveal_with_fuel(Seq::filter, 1);
                assert(remote_keys@.take(i + 1).drop_last() =~= remote_keys@.take(i as int));
            }
            if !self.contains_key(&k) {
                missing.push(k);
            }
            i = i + 1;
        }
        proof {
            assert(remote_keys@.take(remote_keys.len() as int) =~= remote_keys@);
        }
        missing
    }

    /// Moves out the local records whose key is among `wanted`, in archive order.
    pub fn take_records_for(self, wanted: &Vec<RecordKey>) -> (out: Vec<SyncRecord>)
        ensures
            out@ == self.records@.filter(|r: SyncRecord| wanted@.contains(spec_key(r))),
    {
        let ghost all = self.records@;
        let mut rest = self.records;
        let mut taken: Vec<SyncRecord> = Vec::new();
        while rest.len() > 0
            invariant
                rest@.len() <= all.len(),
                rest@ == all.take(rest@.len() as int),
                taken@ == all.skip(rest@.len() as int).filter(|r: SyncRecord| wanted@.contains(spec_key(r))),
            decreases rest.len(),
        {
            let ghost before = rest@;
            let r = rest.pop().unwrap();
            let k = r.key();
            let mut found = false;
            let mut j: usize = 0;
            while j < wanted.len()
                invariant
                    j <= wanted.len(),
                    found == wanted@.take(j as int).contains(k),
                decreases wanted.len() - j,
            {
                proof {
                    assert(wanted@.take(j + 1) =~= wanted@.take(j as int).push(wanted@[j as int]));
                }
                if wanted[j] == k {
                    found = true;
                }
                j = j + 1;
            }
            proof {
                assert(wanted@.take(wanted.len() as int) =~= wanted@);
                let n = rest@.len() as int;
                assert(before =~= rest@.push(r));
                assert(all[n] == r);
                assert(all.skip(n) =~= seq![r] + all.skip(n + 1));
                reveal_with_fuel(Seq::filter, 1);
                all.skip(n + 1).lemma_filter_prepend(r, |r: SyncRecord| wanted@.contains(spec_key(r)));
            }
            if found {
                taken.insert(0, r);
            }
            proof {
                assert(rest@ =~= all.take(rest@.len() as int));
            }
        }
        proof {
            assert(all.skip(0) =~= all);
        }
        taken
    }
}

} // verus!
