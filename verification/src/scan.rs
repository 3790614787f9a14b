//! Classifying what a walk of the cache tree reports. The walk itself is
//! the surrounding program's work; it hands over one entry per filesystem
//! object it reached, and the library keeps the regular files as records,
//! skips everything else, and turns each unreadable entry into a warning —
//! a skipped entry is never an error for the run as a whole.

use vstd::prelude::*;
use crate::record::{FileRecord, RecordKey, keys};

verus! {

/// One filesystem entry as the directory walk reports it.
pub enum ScanEntry {
    /// A regular file, with its last-access time in whole seconds.
    File { atime: u64, path: Vec<u8> },
    /// A directory, symlink or special file: not subject to eviction.
    Other { path: Vec<u8> },
    /// An entry whose metadata could not be read (removed mid-walk,
    /// permission denied): skipped with a warning.
    Unreadable { path: Vec<u8> },
}

/// The record keys of the regular files among the entries, in walk order.
pub open spec fn file_keys_of(es: Seq<ScanEntry>) -> Seq<RecordKey>
    decreases es.len(),
{
    if es.len() == 0 {
        Seq::empty()
    } else {
        let rest = file_keys_of(es.drop_first());
        match es[0] {
            ScanEntry::File { atime, path } => seq![RecordKey { atime, path: path@ }] + rest,
            _ => rest,
        }
    }
}

/// The paths of the unreadable entries, in walk order: one warning each.
pub open spec fn warning_paths_of(es: Seq<ScanEntry>) -> Seq<Seq<u8>>
    decreases es.len(),
{
    if es.len() == 0 {
        Seq::empty()
    } else {
        let rest = warning_paths_of(es.drop_first());
        match es[0] {
            ScanEntry::Unreadable { path } => seq![path@] + rest,
            _ => rest,
        }
    }
}

/// The views of a sequence of byte-string paths.
pub open spec fn byte_seqs(ps: Seq<Vec<u8>>) -> Seq<Seq<u8>> {
    ps.map_values(|p: Vec<u8>| p@)
}

/// Sifts the walk's entries: keeps one record per regular file, in walk
/// order, and one warning path per unreadable entry. Directories, symlinks
/// and special files are passed over without a word, and an unreadable
/// entry never stops the collection.
pub fn collect_records(entries: Vec<ScanEntry>) -> (out: (Vec<FileRecord>, Vec<Vec<u8>>))
    ensures
        keys(out.0@) == file_keys_of(entries@),
        byte_seqs(out.1@) == warning_paths_of(entries@),
{
    let ghost orig = entries@;
    let mut rest = entries;
    let mut records: Vec<FileRecord> = Vec::new();
    let mut warnings: Vec<Vec<u8>> = Vec::new();
    proof {
        assert(keys(records@) =~= Seq::<RecordKey>::empty());
        assert(byte_seqs(warnings@) =~= Seq::<Seq<u8>>::empty());
        assert(keys(records@) + file_keys_of(rest@) =~= file_keys_of(orig));
        assert(byte_seqs(warnings@) + warning_paths_of(rest@) =~= warning_paths_of(orig));
    }
    while rest.len() != 0
        invariant
            keys(records@) + file_keys_of(rest@) == file_keys_of(orig),
            byte_seqs(warnings@) + warning_paths_of(rest@) == warning_paths_of(orig),
        decreases rest@.len(),
    {
        let ghost before = rest@;
        let entry = rest.remove(0);
        proof {
            assert(rest@ =~= before.drop_first());
            assert(entry == before[0]);
        }
        match entry {
            ScanEntry::File { atime, path } => {
                let ghost rs = records@;
                records.push(FileRecord { atime, path });
                proof {
                    let k = RecordKey { atime, path: before[0]->File_path@ };
                    assert(keys(records@) =~= keys(rs).push(k));
                    assert(keys(rs).push(k) + file_keys_of(rest@)
                        =~= keys(rs) + (seq![k] + file_keys_of(rest@)));
                }
            },
            ScanEntry::Other { path: _ } => {
            },
            ScanEntry::Unreadable { path } => {
                let ghost ws = warnings@;
                warnings.push(path);
                proof {
                    let p = before[0]->Unreadable_path@;
                    assert(byte_seqs(warnings@) =~= byte_seqs(ws).push(p));
                    assert(byte_seqs(ws).push(p) + warning_paths_of(rest@)
                        =~= byte_seqs(ws) + (seq![p] + warning_paths_of(rest@)));
                }
            },
        }
    }
    proof {
        assert(file_keys_of(rest@) =~= Seq::<RecordKey>::empty());
        assert(warning_paths_of(rest@) =~= Seq::<Seq<u8>>::empty());
        assert(keys(records@) =~= keys(records@) + file_keys_of(rest@));
        assert(byte_seqs(warnings@) =~= byte_seqs(warnings@) + warning_paths_of(rest@));
    }
    (records, warnings)
}

} // verus!
