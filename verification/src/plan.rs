//! The decimator's ordering pass: arranging the scanned records by recency
//! of access, coldest first, as the one sorted arrangement that the record
//! ranking admits.

use vstd::prelude::*;
use vstd::relations::sorted_by;
use vstd::seq_lib::lemma_sorted_unique;
use crate::record::{FileRecord, RecordKey, record_le, record_order, record_le_exec, keys,
    lemma_record_order_total};

verus! {

broadcast use vstd::seq_lib::group_to_multiset_ensures, vstd::multiset::group_multiset_axioms;

/// Places one record into an already-sorted vector, keeping it sorted.
fn insert_sorted(out: &mut Vec<FileRecord>, r: FileRecord)
    requires
        sorted_by(keys(old(out)@), record_order()),
    ensures
        sorted_by(keys(final(out)@), record_order()),
        keys(final(out)@).to_multiset() == keys(old(out)@).to_multiset().insert(r@),
        final(out)@.len() == old(out)@.len() + 1,
{
    proof {
        lemma_record_order_total();
    }
    let mut k: usize = 0;
    while k < out.len() && record_le_exec(&out[k], &r)
        invariant
            k <= out@.len(),
            out@ == old(out)@,
            forall|p: int| 0 <= p < k ==> record_le(#[trigger] keys(out@)[p], r@),
        decreases out@.len() - k,
    {
        k = k + 1;
    }
    let ghost ks = keys(out@);
    proof {
        let rr = record_order();
        if k < out@.len() {
            assert(!record_le(ks[k as int], r@));
            assert(rr(ks[k as int], r@) || rr(r@, ks[k as int]));
            assert(record_le(r@, ks[k as int]));
        }
    }
    out.insert(k, r);
    proof {
        let rr = record_order();
        let old_seq = old(out)@;
        old_seq.insert_ensures(k as int, r);
        ks.insert_ensures(k as int, r@);
        assert(keys(out@) =~= ks.insert(k as int, r@)) by {
            assert forall|i: int| 0 <= i < keys(out@).len()
                implies keys(out@)[i] == ks.insert(k as int, r@)[i] by {
                if i < k {
                    assert(out@[i] == old_seq[i]);
                } else if i == k {
                    assert(out@[i] == r);
                } else {
                    assert(out@[i] == old_seq[i - 1]);
                    assert(ks.insert(k as int, r@)[(i - 1) + 1] == ks[i - 1]);
                }
            }
        }
        let nk = keys(out@);
        assert(sorted_by(nk, rr)) by {
            assert forall|p: int, q: int| 0 <= p < q < nk.len() implies #[trigger] rr(nk[p], nk[q]) by {
                if q < k {
                    assert(rr(ks[p], ks[q]));
                } else if q == k {
                    assert(nk[q] == r@);
                    assert(record_le(ks[p], r@));
                    assert(rr(nk[p], nk[q]));
                } else if p == k {
                    assert(nk[p] == r@);
                    assert(nk[q] == ks[q - 1]);
                    if q - 1 == k {
                        assert(record_le(r@, ks[k as int]));
                    } else {
                        assert(rr(ks[k as int], ks[q - 1]));
                        assert(record_le(r@, ks[k as int]));
                        assert(rr(r@, ks[q - 1]));
                    }
                    assert(rr(nk[p], nk[q]));
                } else if p < k {
                    assert(nk[q] == ks[q - 1]);
                    if q - 1 == p {
                        assert(rr(ks[p], ks[p]));
                    } else {
                        assert(rr(ks[p], ks[q - 1]));
                    }
                } else {
                    assert(nk[p] == ks[p - 1]);
                    assert(nk[q] == ks[q - 1]);
                    assert(rr(ks[p - 1], ks[q - 1]));
                }
            }
        }
    }
}

/// Sorts the scanned records by the record ranking, coldest access first.
/// The result is the unique arrangement of the input that the total order
/// admits, so a scan's ordering pass is deterministic.
pub fn sort_records(records: Vec<FileRecord>) -> (sorted: Vec<FileRecord>)
    ensures
        keys(sorted@) == keys(records@).sort_by(record_order()),
        sorted@.len() == records@.len(),
        sorted_by(keys(sorted@), record_order()),
        keys(sorted@).to_multiset() == keys(records@).to_multiset(),
{
    let ghost orig = keys(records@);
    let mut input = records;
    let mut out: Vec<FileRecord> = Vec::new();
    proof {
        assert(keys(out@) =~= Seq::<RecordKey>::empty());
        assert(keys(input@) == orig);
        assert(keys(out@).to_multiset().add(keys(input@).to_multiset()) =~= orig.to_multiset());
    }
    while input.len() != 0
        invariant
            sorted_by(keys(out@), record_order()),
            keys(out@).to_multiset().add(keys(input@).to_multiset()) == orig.to_multiset(),
            out@.len() + input@.len() == orig.len(),
        decreases input@.len(),
    {
        let ghost s = keys(input@);
        let ghost out_m = keys(out@).to_multiset();
        let r = input.pop().unwrap();
        proof {
            let last = s.len() - 1;
            assert(keys(input@) =~= s.remove(last)) by {
                assert forall|i: int| 0 <= i < keys(input@).len()
                    implies keys(input@)[i] == s.remove(last)[i] by {
                    s.remove_ensures(last);
                }
            }
            assert(r@ == s[last]);
            assert(s.remove(last).to_multiset() =~= s.to_multiset().remove(s[last]));
        }
        insert_sorted(&mut out, r);
        proof {
            let x = r@;
            let in_m = keys(input@).to_multiset();
            assert(s.to_multiset().contains(x));
            assert(out_m.insert(x).add(in_m) =~= out_m.add(s.to_multiset())) by {
                assert forall|y: RecordKey|
                    out_m.insert(x).add(in_m).count(y) == out_m.add(s.to_multiset()).count(y) by {
                    assert(in_m == s.to_multiset().remove(x));
                }
            }
        }
    }
    proof {
        lemma_record_order_total();
        assert(keys(input@) =~= Seq::<RecordKey>::empty());
        assert(keys(out@).to_multiset() =~= orig.to_multiset()) by {
            assert forall|y: RecordKey|
                keys(out@).to_multiset().count(y) == orig.to_multiset().count(y) by {
                assert(keys(input@).to_multiset().count(y) == 0);
            }
        }
        orig.lemma_sort_by_ensures(record_order());
        lemma_sorted_unique(keys(out@), orig.sort_by(record_order()), record_order());
    }
    out
}

/// The keys of a scan's records, arranged by the ranking, coldest first.
pub open spec fn sorted_keys_of(s: Seq<RecordKey>) -> Seq<RecordKey> {
    s.sort_by(record_order())
}

/// The keys of the victims a scan of `s` leads to: the coldest tenth of the
/// records, truncated toward zero.
pub open spec fn victim_keys_of(s: Seq<RecordKey>) -> Seq<RecordKey> {
    sorted_keys_of(s).take((s.len() / 10) as int)
}

/// An ordered eviction plan: every record found, coldest access first, and
/// the count of leading records selected as victims.
pub struct EvictionPlan {
    /// All records the scan found, arranged by the ranking.
    pub sorted: Vec<FileRecord>,
    /// How many records, taken from the front, are victims.
    pub victim_count: usize,
}

impl EvictionPlan {
    /// The plan's internal shape: ordered records, and a victim count of
    /// exactly a tenth of them.
    pub open spec fn wf(self) -> bool {
        &&& sorted_by(keys(self.sorted@), record_order())
        &&& self.victim_count == self.sorted@.len() / 10
    }

    /// The keys of the plan's victims, in eviction order.
    pub open spec fn victim_keys(self) -> Seq<RecordKey> {
        keys(self.sorted@).take(self.victim_count as int)
    }

    /// Builds the plan for one scan: ranks the records coldest first and
    /// selects the coldest tenth — exactly `floor(N / 10)` of `N` records —
    /// as victims. Fewer than ten records select no victim at all.
    pub fn build(records: Vec<FileRecord>) -> (plan: EvictionPlan)
        ensures
            plan.wf(),
            keys(plan.sorted@) == sorted_keys_of(keys(records@)),
            plan.sorted@.len() == records@.len(),
            plan.victim_count == records@.len() / 10,
            plan.victim_keys() == victim_keys_of(keys(records@)),
    {
        let sorted = sort_records(records);
        let victim_count = sorted.len() / 10;
        let plan = EvictionPlan { sorted, victim_count };
        proof {
            assert(plan.victim_keys() =~= victim_keys_of(keys(records@)));
        }
        plan
    }

    /// Hands out the victims, in eviction order: the plan's leading records.
    pub fn into_victims(self) -> (v: Vec<FileRecord>)
        requires
            self.wf(),
        ensures
            keys(v@) == self.victim_keys(),
            v@.len() == self.sorted@.len() / 10,
    {
        let mut v = self.sorted;
        let count = self.victim_count;
        v.truncate(count);
        proof {
            assert(keys(v@) =~= keys(self.sorted@).take(self.victim_count as int));
        }
        v
    }
}

/// What one run of the decimator decides: the counts the run reports, the
/// victims in eviction order, and whether deletion was requested. The
/// surrounding program logs one line from the counts and one per victim,
/// and removes the victims' files only when `commit` is set.
pub struct Decimation {
    pub total_files: usize,
    pub victims: Vec<FileRecord>,
    pub commit: bool,
}

/// One full decimator pass over the records a scan produced: rank them
/// coldest-access-first and select the coldest tenth as victims. Victim
/// selection and reporting do not read `commit`; the flag is only carried
/// through for the caller's deletion loop.
pub fn decimate(records: Vec<FileRecord>, commit: bool) -> (d: Decimation)
    ensures
        d.total_files == records@.len(),
        keys(d.victims@) == victim_keys_of(keys(records@)),
        d.victims@.len() == records@.len() / 10,
        d.commit == commit,
{
    let total_files = records.len();
    let plan = EvictionPlan::build(records);
    let victims = plan.into_victims();
    Decimation { total_files, victims, commit }
}

} // verus!
