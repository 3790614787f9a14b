use decimator::plan::{decimate, EvictionPlan};
use decimator::record::FileRecord;

fn rec(atime: u64, path: &str) -> FileRecord {
    FileRecord { atime, path: path.as_bytes().to_vec() }
}

fn tree(n: u64) -> Vec<FileRecord> {
    (1..=n).map(|i| rec(i, &format!("cache/file{:03}", i))).collect()
}

#[test]
fn victim_count_is_floor_of_tenth() {
    for n in [0u64, 1, 5, 9, 10, 11, 19, 20, 23, 99, 100] {
        let d = decimate(tree(n), false);
        assert_eq!(d.total_files, n as usize);
        assert_eq!(d.victims.len(), (n / 10) as usize);
    }
}

#[test]
fn five_files_select_no_victim() {
    let d_dry = decimate(tree(5), false);
    let d_commit = decimate(tree(5), true);
    assert_eq!(d_dry.victims.len(), 0);
    assert_eq!(d_commit.victims.len(), 0);
}

#[test]
fn twenty_three_files_lose_the_two_coldest() {
    let mut records = tree(23);
    records.reverse();
    let d = decimate(records, false);
    assert_eq!(d.total_files, 23);
    assert_eq!(d.victims.len(), 2);
    assert_eq!(d.victims[0].atime, 1);
    assert_eq!(d.victims[1].atime, 2);
    assert_eq!(d.victims[0].path, b"cache/file001".to_vec());
    assert_eq!(d.victims[1].path, b"cache/file002".to_vec());
}

#[test]
fn victims_precede_survivors() {
    let records: Vec<FileRecord> =
        [7u64, 3, 9, 1, 4, 8, 2, 6, 5, 10, 12, 11].iter().enumerate().map(|(i, &t)| {
            rec(t, &format!("f{}", i))
        }).collect();
    let n = records.len();
    let plan = EvictionPlan::build(records);
    assert_eq!(plan.victim_count, n / 10);
    for i in 0..plan.victim_count {
        for j in plan.victim_count..n {
            assert!(plan.sorted[i].atime <= plan.sorted[j].atime);
        }
    }
    let victims = plan.into_victims();
    assert_eq!(victims.len(), 1);
    assert_eq!(victims[0].atime, 1);
}

#[test]
fn dry_run_matches_committing_run() {
    let d_dry = decimate(tree(42), false);
    let d_commit = decimate(tree(42), true);
    assert!(!d_dry.commit);
    assert!(d_commit.commit);
    assert_eq!(d_dry.total_files, d_commit.total_files);
    assert_eq!(d_dry.victims.len(), d_commit.victims.len());
    for (a, b) in d_dry.victims.iter().zip(d_commit.victims.iter()) {
        assert_eq!(a.atime, b.atime);
        assert_eq!(a.path, b.path);
    }
}

#[test]
fn dry_run_twice_is_identical() {
    let first = decimate(tree(37), false);
    let second = decimate(tree(37), false);
    assert_eq!(first.total_files, second.total_files);
    assert_eq!(first.victims.len(), second.victims.len());
    for (a, b) in first.victims.iter().zip(second.victims.iter()) {
        assert_eq!(a.atime, b.atime);
        assert_eq!(a.path, b.path);
    }
}

#[test]
fn selection_ignores_scan_order() {
    let forwards = decimate(tree(30), false);
    let mut shuffled = tree(30);
    shuffled.reverse();
    shuffled.swap(0, 7);
    shuffled.swap(3, 19);
    let backwards = decimate(shuffled, false);
    assert_eq!(forwards.victims.len(), backwards.victims.len());
    for (a, b) in forwards.victims.iter().zip(backwards.victims.iter()) {
        assert_eq!(a.atime, b.atime);
        assert_eq!(a.path, b.path);
    }
}

#[test]
fn equal_access_times_break_ties_by_path() {
    let names = ["j", "c", "a", "h", "b", "f", "e", "i", "d", "g"];
    let records: Vec<FileRecord> = names.iter().map(|n| rec(5, n)).collect();
    let plan = EvictionPlan::build(records);
    assert_eq!(plan.victim_count, 1);
    let sorted_names: Vec<&[u8]> = plan.sorted.iter().map(|r| r.path.as_slice()).collect();
    assert_eq!(
        sorted_names,
        vec![
            b"a" as &[u8], b"b", b"c", b"d", b"e", b"f", b"g", b"h", b"i", b"j",
        ]
    );
    let victims = plan.into_victims();
    assert_eq!(victims[0].path, b"a".to_vec());
}

#[test]
fn shorter_path_sorts_before_its_extension() {
    let records = vec![rec(1, "abc"), rec(1, "ab"), rec(1, ""), rec(1, "b")];
    let plan = EvictionPlan::build(records);
    let order: Vec<Vec<u8>> = plan.sorted.iter().map(|r| r.path.clone()).collect();
    assert_eq!(
        order,
        vec![b"".to_vec(), b"ab".to_vec(), b"abc".to_vec(), b"b".to_vec()]
    );
}
