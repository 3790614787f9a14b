//! The decimator's guarantees, stated over the selection specification and
//! proved once and for all: how many victims a scan leads to, that victims
//! are the coldest records, and that the selection depends on nothing but
//! the records the scan found.

use vstd::prelude::*;
use vstd::seq_lib::lemma_sorted_unique;
use crate::record::{RecordKey, record_le, record_order, lemma_record_order_total};
use crate::plan::{sorted_keys_of, victim_keys_of};

verus! {

broadcast use vstd::seq_lib::group_to_multiset_ensures;

/// A scan of `N` records selects exactly `floor(N / 10)` victims — never
/// more, never fewer; in particular, fewer than ten records select none.
pub proof fn lemma_victim_count_is_tenth(s: Seq<RecordKey>)
    ensures
        sorted_keys_of(s).len() == s.len(),
        victim_keys_of(s).len() == s.len() / 10,
{
    lemma_record_order_total();
    s.lemma_sort_by_ensures(record_order());
    assert(s.len() == s.to_multiset().len());
    assert(sorted_keys_of(s).len() == sorted_keys_of(s).to_multiset().len());
    assert(s.to_multiset() == sorted_keys_of(s).to_multiset());
    assert(s.len() / 10 <= s.len()) by (nonlinear_arith);
}

/// Victims are a prefix of the coldest-first arrangement: every victim's
/// ranking — and in particular its access time — is at or below that of
/// every record that survives the same run.
pub proof fn lemma_victims_are_coldest(s: Seq<RecordKey>)
    ensures
        forall|i: int, j: int|
            0 <= i < s.len() / 10 && s.len() / 10 <= j < s.len()
                ==> record_le(#[trigger] victim_keys_of(s)[i], #[trigger] sorted_keys_of(s)[j])
                && victim_keys_of(s)[i].atime <= sorted_keys_of(s)[j].atime,
{
    lemma_record_order_total();
    lemma_victim_count_is_tenth(s);
    s.lemma_sort_by_ensures(record_order());
    let t = sorted_keys_of(s);
    let rr = record_order();
    assert forall|i: int, j: int|
        0 <= i < s.len() / 10 && s.len() / 10 <= j < s.len()
            implies record_le(#[trigger] victim_keys_of(s)[i], #[trigger] sorted_keys_of(s)[j])
            && victim_keys_of(s)[i].atime <= sorted_keys_of(s)[j].atime by {
        assert(victim_keys_of(s)[i] == t[i]);
        if i < j {
            assert(rr(t[i], t[j]));
        } else {
            assert(rr(t[i], t[i]));
        }
        assert(record_le(t[i], t[j]));
    }
}

/// A dry run selects and reports exactly what a committing run over the
/// same scan would: both victim lists equal the one selection that the
/// records determine, so the commit flag has no part in the choice.
pub proof fn lemma_dry_run_selects_as_commit(
    s: Seq<RecordKey>,
    dry_victims: Seq<RecordKey>,
    commit_victims: Seq<RecordKey>,
)
    requires
        dry_victims == victim_keys_of(s),
        commit_victims == victim_keys_of(s),
    ensures
        dry_victims == commit_victims,
{
}

/// Scanning an unmodified tree again — even in another enumeration order —
/// selects the same victims: the selection depends only on which records
/// the scan found, not on when or in what order it found them.
pub proof fn lemma_selection_deterministic(s1: Seq<RecordKey>, s2: Seq<RecordKey>)
    requires
        s1.to_multiset() == s2.to_multiset(),
    ensures
        victim_keys_of(s1) == victim_keys_of(s2),
{
    lemma_record_order_total();
    s1.lemma_sort_by_ensures(record_order());
    s2.lemma_sort_by_ensures(record_order());
    lemma_sorted_unique(sorted_keys_of(s1), sorted_keys_of(s2), record_order());
    assert(s1.len() == s1.to_multiset().len());
    assert(s2.len() == s2.to_multiset().len());
    assert(victim_keys_of(s1) =~= victim_keys_of(s2));
}

} // verus!
