//! File records: one per regular file found under the cache root, carrying
//! the two facts the eviction policy reads — when the file was last accessed
//! and where it lives. Paths are carried as raw bytes, since an operating
//! system path need not be valid text.

use vstd::prelude::*;
use vstd::relations::total_ordering;
use crate::order::{lex_le, bytes_le, lemma_lex_le_total, lemma_lex_le_antisymmetric,
    lemma_lex_le_transitive};

verus! {

/// One regular file found under the cache root.
pub struct FileRecord {
    /// Last-access time, in whole seconds since an arbitrary epoch.
    pub atime: u64,
    /// The file's path, as the bytes the operating system reports.
    pub path: Vec<u8>,
}

/// The mathematical content of a record: what the eviction policy ranks by.
#[verifier::ext_equal]
pub struct RecordKey {
    pub atime: u64,
    pub path: Seq<u8>,
}

impl View for FileRecord {
    type V = RecordKey;

    open spec fn view(&self) -> RecordKey {
        RecordKey { atime: self.atime, path: self.path@ }
    }
}

/// The ranking the decimator sorts by: older access time first; among equal
/// access times, lexicographically smaller path bytes first.
pub open spec fn record_le(a: RecordKey, b: RecordKey) -> bool {
    a.atime < b.atime || (a.atime == b.atime && lex_le(a.path, b.path))
}

/// The ranking as a relation value, for use with sequence sorting.
pub open spec fn record_order() -> spec_fn(RecordKey, RecordKey) -> bool {
    |a: RecordKey, b: RecordKey| record_le(a, b)
}

/// The ranking is a total order on record keys, so a collection of records
/// has exactly one sorted arrangement.
pub proof fn lemma_record_order_total()
    ensures
        total_ordering(record_order()),
{
    let r = record_order();
    assert forall|a: RecordKey, b: RecordKey| #[trigger] r(a, b) || #[trigger] r(b, a) by {
        lemma_lex_le_total(a.path, b.path);
    }
    assert forall|a: RecordKey, b: RecordKey| #[trigger] r(a, b) && #[trigger] r(b, a)
        implies a == b by {
        lemma_lex_le_antisymmetric(a.path, b.path);
        assert(a =~= b);
    }
    assert forall|a: RecordKey, b: RecordKey, c: RecordKey|
        #[trigger] r(a, b) && #[trigger] r(b, c) implies r(a, c) by {
        if a.atime == b.atime && b.atime == c.atime {
            lemma_lex_le_transitive(a.path, b.path, c.path);
        }
    }
    assert forall|a: RecordKey| #[trigger] r(a, a) by {
        lemma_lex_le_total(a.path, a.path);
    }
}

/// Compares two records by the ranking.
pub fn record_le_exec(a: &FileRecord, b: &FileRecord) -> (r: bool)
    ensures
        r == record_le(a@, b@),
{
    if a.atime < b.atime {
        true
    } else if a.atime > b.atime {
        false
    } else {
        bytes_le(&a.path, &b.path)
    }
}

/// The keys of a sequence of records, in the same order.
pub open spec fn keys(rs: Seq<FileRecord>) -> Seq<RecordKey> {
    rs.map_values(|r: FileRecord| r@)
}

} // verus!
