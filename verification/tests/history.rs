use patto_mobile::history::{build_file_time_map, clone_success_message, CommitRecord, FileTimeMap};

fn commit(time: i64, paths: &[&str]) -> CommitRecord {
    CommitRecord { time, paths: paths.iter().map(|p| p.to_string()).collect() }
}

#[test]
fn three_commits_one_file_each() {
    let commits = vec![
        commit(1000, &["a.pn"]),
        commit(2000, &["b.pn"]),
        commit(3000, &["sub/c.pn"]),
    ];
    let map = build_file_time_map(&commits);
    assert_eq!(map.len(), 3);
    assert_eq!(map.get(&"a.pn".to_string()), Some(1000));
    assert_eq!(map.get(&"b.pn".to_string()), Some(2000));
    assert_eq!(map.get(&"sub/c.pn".to_string()), Some(3000));
}

#[test]
fn later_commit_wins() {
    let commits = vec![
        commit(1000, &["a.pn", "b.pn"]),
        commit(2000, &["a.pn"]),
    ];
    let map = build_file_time_map(&commits);
    assert_eq!(map.len(), 2);
    assert_eq!(map.get(&"a.pn".to_string()), Some(2000));
    assert_eq!(map.get(&"b.pn".to_string()), Some(1000));
}

#[test]
fn untouched_file_keeps_root_time() {
    let commits = vec![
        commit(500, &["kept.pn", "edited.pn"]),
        commit(900, &["edited.pn"]),
        commit(1300, &["edited.pn", "new.pn"]),
    ];
    let map = build_file_time_map(&commits);
    assert_eq!(map.get(&"kept.pn".to_string()), Some(500));
    assert_eq!(map.get(&"edited.pn".to_string()), Some(1300));
    assert_eq!(map.get(&"new.pn".to_string()), Some(1300));
}

#[test]
fn empty_history_gives_empty_map() {
    let commits: Vec<CommitRecord> = Vec::new();
    let map = build_file_time_map(&commits);
    assert_eq!(map.len(), 0);
}

#[test]
fn unknown_path_misses() {
    let commits = vec![commit(1000, &["a.pn"])];
    let map = build_file_time_map(&commits);
    assert_eq!(map.get(&"missing.pn".to_string()), None);
}

#[test]
fn set_overwrites_and_counts_distinct_paths() {
    let mut map = FileTimeMap::new();
    map.set("x.pn".to_string(), 10);
    map.set("y.pn".to_string(), 20);
    map.set("x.pn".to_string(), 30);
    assert_eq!(map.len(), 2);
    assert_eq!(map.get(&"x.pn".to_string()), Some(30));
    assert_eq!(map.get(&"y.pn".to_string()), Some(20));
}

#[test]
fn entries_walk_the_whole_map() {
    let mut map = FileTimeMap::new();
    map.set("a".to_string(), 1);
    map.set("b".to_string(), 2);
    let mut seen = Vec::new();
    for i in 0..map.len() {
        seen.push(map.entry_at(i));
    }
    seen.sort();
    assert_eq!(seen, vec![("a".to_string(), 1), ("b".to_string(), 2)]);
}

#[test]
fn negative_timestamps_are_carried() {
    let commits = vec![commit(-5, &["old.pn"])];
    let map = build_file_time_map(&commits);
    assert_eq!(map.get(&"old.pn".to_string()), Some(-5));
}

#[test]
fn clone_summary_spells_the_count() {
    assert_eq!(
        clone_success_message("\"/tmp/notes\"", 12),
        "Successfully cloned to \"/tmp/notes\" (fixed 12 file timestamps)"
    );
    assert_eq!(
        clone_success_message("x", 0),
        "Successfully cloned to x (fixed 0 file timestamps)"
    );
}
