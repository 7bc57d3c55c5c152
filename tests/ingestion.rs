use mvdup::database::DataBase;
use mvdup::error::DataStoreError;
use mvdup::hash::content_hash;
use mvdup::ingest::{Admission, DuplicationEntry, DuplicationManager, IngestRun, MoveOutcome, Placement};

fn stored(p: Placement) -> String {
    match p {
        Placement::Store(n) => n,
        Placement::Duplicate(n) => panic!("expected a new file, got a duplicate of {n}"),
    }
}

#[test]
fn init_gives_empty_catalog() {
    let run = IngestRun::new(DataBase::new(), None);
    assert_eq!(run.catalog().len(), 0);
    assert!(run.duplicates().entries().is_empty());
}

#[test]
fn first_file_is_stored_under_hash_and_extension() {
    let mut run = IngestRun::new(DataBase::new(), None);
    assert_eq!(run.screen(true), Admission::Hash);
    let hash = content_hash(b"hello");
    let name = stored(run.classify(&hash, &"incoming/a.txt".to_string()));
    assert_eq!(name, format!("{hash}.txt"));
    assert_eq!(
        name,
        "2cf24dba5fb0a30e26e83b2ac5b9e29e1b161e5c1fa7425e73043362938b9824.txt"
    );
    assert_eq!(run.settle(hash.clone(), name.clone(), MoveOutcome::Moved), Ok(()));
    assert_eq!(run.catalog().read_all(), vec![(name, hash)]);
}

#[test]
fn same_content_again_is_duplicate_and_kept_in_place() {
    let mut first = IngestRun::new(DataBase::new(), None);
    let hash = content_hash(b"hello");
    first.screen(true);
    let name = stored(first.classify(&hash, &"incoming/a.txt".to_string()));
    first.settle(hash.clone(), name.clone(), MoveOutcome::Moved).unwrap();
    let catalog = DataBase::from_rows(&first.catalog().read_all()).unwrap();

    let mut second = IngestRun::new(catalog, None);
    assert_eq!(second.screen(true), Admission::Hash);
    let again = content_hash(b"hello");
    match second.classify(&again, &"incoming/b.txt".to_string()) {
        Placement::Duplicate(existing) => assert_eq!(existing, name),
        Placement::Store(n) => panic!("content stored twice as {n}"),
    }
    assert_eq!(second.catalog().len(), 1);
    let groups = second.duplicates().entries();
    assert_eq!(groups.len(), 1);
    assert_eq!(groups[0].0, hash);
    assert_eq!(groups[0].1.on_destination(), &name);
    assert_eq!(groups[0].1.sources(), &vec!["incoming/b.txt".to_string()]);
}

#[test]
fn duplicates_in_one_run_share_a_group() {
    let mut run = IngestRun::new(DataBase::new(), None);
    let empty = content_hash(b"");
    let name = stored(run.classify(&empty, &"x/one".to_string()));
    assert_eq!(name, empty);
    run.settle(empty.clone(), name.clone(), MoveOutcome::Moved).unwrap();
    let other = content_hash(b"other");
    let other_name = stored(run.classify(&other, &"x/o.bin".to_string()));
    run.settle(other.clone(), other_name.clone(), MoveOutcome::Moved).unwrap();
    for p in ["x/two", "y/three.txt"] {
        assert!(matches!(run.classify(&empty, &p.to_string()), Placement::Duplicate(_)));
    }
    assert!(matches!(run.classify(&other, &"z/o2".to_string()), Placement::Duplicate(_)));
    let groups = run.duplicates().entries();
    assert_eq!(groups.len(), 2);
    assert_eq!(groups[0].0, empty);
    assert_eq!(groups[0].1.sources(), &vec!["x/two".to_string(), "y/three.txt".to_string()]);
    assert_eq!(groups[1].0, other);
    assert_eq!(groups[1].1.on_destination(), &other_name);
    assert_eq!(run.catalog().len(), 2);
}

#[test]
fn take_limit_counts_regular_files_only() {
    let mut run = IngestRun::new(DataBase::new(), Some(2));
    assert_eq!(run.screen(true), Admission::Hash);
    assert_eq!(run.screen(false), Admission::Skip);
    assert_eq!(run.screen(true), Admission::Hash);
    assert_eq!(run.screen(false), Admission::Skip);
    assert_eq!(run.screen(true), Admission::Halt);
    assert_eq!(run.screen(false), Admission::Halt);
    assert_eq!(run.screen(true), Admission::Halt);
}

#[test]
fn take_zero_halts_at_first_regular_file() {
    let mut run = IngestRun::new(DataBase::new(), Some(0));
    assert_eq!(run.screen(false), Admission::Skip);
    assert_eq!(run.screen(true), Admission::Halt);
}

#[test]
fn no_limit_admits_every_regular_file() {
    let mut run = IngestRun::new(DataBase::new(), None);
    for _ in 0..100 {
        assert_eq!(run.screen(true), Admission::Hash);
    }
    assert_eq!(run.screen(false), Admission::Skip);
}

#[test]
fn taken_name_and_failed_move_are_errors() {
    let mut run = IngestRun::new(DataBase::new(), None);
    let h = content_hash(b"data");
    let name = stored(run.classify(&h, &"d.dat".to_string()));
    assert_eq!(
        run.settle(h.clone(), name.clone(), MoveOutcome::NameTaken),
        Err(DataStoreError::Conflict(name.clone()))
    );
    assert_eq!(
        run.settle(h.clone(), name.clone(), MoveOutcome::Failed("permission denied".to_string())),
        Err(DataStoreError::Io("permission denied".to_string()))
    );
    assert_eq!(run.catalog().len(), 0);
    assert_eq!(run.settle(h.clone(), name.clone(), MoveOutcome::Moved), Ok(()));
    assert_eq!(
        run.settle(h.clone(), name, MoveOutcome::Moved),
        Err(DataStoreError::Conflict(h))
    );
    assert_eq!(run.catalog().len(), 1);
}

#[test]
fn manager_groups_by_hash() {
    let mut m = DuplicationManager::new();
    m.put("h1".to_string(), "h1.txt".to_string(), "a".to_string());
    m.put("h2".to_string(), "h2".to_string(), "b".to_string());
    m.put("h1".to_string(), "ignored".to_string(), "c".to_string());
    let e = m.entries();
    assert_eq!(e.len(), 2);
    assert_eq!(e[0].1.on_destination(), "h1.txt");
    assert_eq!(e[0].1.sources(), &vec!["a".to_string(), "c".to_string()]);
    assert_eq!(e[1].1.sources(), &vec!["b".to_string()]);
}

#[test]
fn entry_starts_with_one_source() {
    let mut e = DuplicationEntry::new("kept".to_string(), "s1".to_string());
    assert_eq!(e.sources(), &vec!["s1".to_string()]);
    e.push("s2".to_string());
    assert_eq!(e.on_destination(), "kept");
    assert_eq!(e.sources(), &vec!["s1".to_string(), "s2".to_string()]);
}
