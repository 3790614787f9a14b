use decimator::scan::{collect_records, ScanEntry};
use decimator::space::SpaceReading;

#[test]
fn readings_need_a_real_volume() {
    assert!(SpaceReading::new(0, 0).is_none());
    assert!(SpaceReading::new(5, 4).is_none());
    assert!(SpaceReading::new(0, 1).is_some());
    assert!(SpaceReading::new(4, 4).is_some());
}

#[test]
fn centi_percent_is_truncated() {
    let r = SpaceReading::new(1001, 10000).unwrap();
    assert_eq!(r.free_centi_percent(), 1001);
    let r = SpaceReading::new(1, 3).unwrap();
    assert_eq!(r.free_centi_percent(), 3333);
    let r = SpaceReading::new(0, 7).unwrap();
    assert_eq!(r.free_centi_percent(), 0);
    let r = SpaceReading::new(7, 7).unwrap();
    assert_eq!(r.free_centi_percent(), 10000);
}

#[test]
fn pressure_triggers_at_the_threshold_exactly() {
    // Free space exactly at 10.00% of capacity: eviction runs.
    let at = SpaceReading::new(100, 1000).unwrap();
    assert!(at.under_pressure(1000));
    // Free space at 10.01%: eviction does not run.
    let just_above = SpaceReading::new(1001, 10000).unwrap();
    assert!(!just_above.under_pressure(1000));
    // Well below and well above the threshold.
    assert!(SpaceReading::new(1, 1000).unwrap().under_pressure(1000));
    assert!(!SpaceReading::new(999, 1000).unwrap().under_pressure(1000));
}

#[test]
fn unreadable_entry_is_skipped_with_one_warning() {
    let mut entries: Vec<ScanEntry> = (0..10u64)
        .map(|i| ScanEntry::File {
            atime: i + 1,
            path: format!("cache/f{}", i).into_bytes(),
        })
        .collect();
    entries[4] = ScanEntry::Unreadable { path: b"cache/f4".to_vec() };
    let (records, warnings) = collect_records(entries);
    assert_eq!(records.len(), 9);
    assert_eq!(warnings.len(), 1);
    assert_eq!(warnings[0], b"cache/f4".to_vec());
    // floor(9 / 10) == 0: the run selects no victim.
    let d = decimator::plan::decimate(records, true);
    assert_eq!(d.victims.len(), 0);
}

#[test]
fn directories_and_symlinks_are_passed_over() {
    let entries = vec![
        ScanEntry::Other { path: b"cache".to_vec() },
        ScanEntry::File { atime: 3, path: b"cache/a".to_vec() },
        ScanEntry::Other { path: b"cache/sub".to_vec() },
        ScanEntry::File { atime: 1, path: b"cache/sub/b".to_vec() },
        ScanEntry::Unreadable { path: b"cache/locked".to_vec() },
        ScanEntry::File { atime: 2, path: b"cache/c".to_vec() },
    ];
    let (records, warnings) = collect_records(entries);
    assert_eq!(records.len(), 3);
    assert_eq!(warnings.len(), 1);
    assert_eq!(records[0].atime, 3);
    assert_eq!(records[1].atime, 1);
    assert_eq!(records[2].atime, 2);
    assert_eq!(records[0].path, b"cache/a".to_vec());
}

#[test]
fn empty_walk_collects_nothing() {
    let (records, warnings) = collect_records(Vec::new());
    assert!(records.is_empty());
    assert!(warnings.is_empty());
    let d = decimator::plan::decimate(records, true);
    assert_eq!(d.total_files, 0);
    assert_eq!(d.victims.len(), 0);
}
