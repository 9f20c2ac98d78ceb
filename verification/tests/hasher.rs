use colek::error::ColekError;
use colek::hasher::{content_key, AppHasher, HasherEventDuplicate, Resolution};
use colek::index::{DuplicateIndex, Hashes};

fn created(at: u128) -> Result<u128, String> {
    Ok(at)
}

#[test]
fn content_key_is_the_xxh3_hash_and_the_length() {
    let key = content_key(b"hello world");
    assert_eq!(key.size, 11);
    assert_eq!(key.hash, xxhash_rust::xxh3::xxh3_128(b"hello world"));
    assert_ne!(key.hash, 0);
}

#[test]
fn content_key_of_nothing() {
    let key = content_key(b"");
    assert_eq!(key.size, 0);
    assert_eq!(key.hash, 0x99aa06d3014798d86001c324468d497f_u128);
}

#[test]
fn equal_content_gives_equal_keys() {
    let x = vec![7u8; 5000];
    let y = vec![7u8; 5000];
    let z = vec![7u8; 5001];
    assert_eq!(content_key(&x), content_key(&y));
    assert_ne!(content_key(&x), content_key(&z));
    assert_ne!(content_key(b"a"), content_key(b"b"));
}

#[test]
fn a_new_key_is_indexed() {
    let mut engine = AppHasher::new(HasherEventDuplicate::Print);
    let key = Hashes::new(1, 10);
    assert_eq!(engine.lookup(&key), None);
    assert_eq!(engine.take_in(key, "/a"), None);
    assert_eq!(engine.lookup(&key), Some(&"/a".to_string()));
    assert_eq!(engine.event_duplicate(), HasherEventDuplicate::Print);
}

#[test]
fn a_known_key_gives_the_indexed_path_and_changes_nothing() {
    let mut engine = AppHasher::new(HasherEventDuplicate::Remove);
    let key = Hashes::new(1, 10);
    assert_eq!(engine.take_in(key, "/a"), None);
    assert_eq!(engine.take_in(key, "/b"), Some("/a".to_string()));
    assert_eq!(engine.lookup(&key), Some(&"/a".to_string()));
}

#[test]
fn the_earlier_file_is_kept_when_it_came_first() {
    let mut engine = AppHasher::new(HasherEventDuplicate::Remove);
    let key = Hashes::new(42, 3);
    assert_eq!(engine.take_in(key, "/old"), None);
    let indexed = engine.take_in(key, "/new").unwrap();
    let decided = engine
        .on_duplicate(key, "/new".to_string(), indexed, created(200), created(100))
        .unwrap();
    assert_eq!(decided.kept_path(), "/old");
    assert_eq!(decided.dropped_path(), "/new");
    assert!(!decided.keeps_incoming);
    assert_eq!(engine.lookup(&key), Some(&"/old".to_string()));
}

#[test]
fn the_earlier_file_is_kept_when_it_came_second() {
    let mut engine = AppHasher::new(HasherEventDuplicate::Remove);
    let key = Hashes::new(42, 3);
    assert_eq!(engine.take_in(key, "/new"), None);
    let indexed = engine.take_in(key, "/old").unwrap();
    let decided = engine
        .on_duplicate(key, "/old".to_string(), indexed, created(100), created(200))
        .unwrap();
    assert_eq!(decided.kept_path(), "/old");
    assert_eq!(decided.dropped_path(), "/new");
    assert!(decided.keeps_incoming);
    assert_eq!(engine.lookup(&key), Some(&"/old".to_string()));
}

#[test]
fn equally_old_files_keep_the_indexed_one() {
    let mut engine = AppHasher::new(HasherEventDuplicate::Print);
    let key = Hashes::new(42, 3);
    engine.take_in(key, "/first");
    let indexed = engine.take_in(key, "/second").unwrap();
    let decided = engine
        .on_duplicate(key, "/second".to_string(), indexed, created(5), created(5))
        .unwrap();
    assert_eq!(decided.kept_path(), "/first");
    assert_eq!(decided.dropped_path(), "/second");
    assert_eq!(engine.lookup(&key), Some(&"/first".to_string()));
}

#[test]
fn the_decision_holds_all_that_was_given() {
    let mut engine = AppHasher::new(HasherEventDuplicate::Rename);
    let key = Hashes::new(77, 9);
    engine.take_in(key, "/x");
    let decided = engine
        .on_duplicate(key, "/y".to_string(), "/x".to_string(), created(1), created(2))
        .unwrap();
    assert_eq!(
        decided,
        Resolution {
            incoming: "/y".to_string(),
            indexed: "/x".to_string(),
            keeps_incoming: true,
            hash: 77,
            event: HasherEventDuplicate::Rename,
        }
    );
}

#[test]
fn a_missing_creation_time_skips_the_pair() {
    let mut engine = AppHasher::new(HasherEventDuplicate::Remove);
    let key = Hashes::new(42, 3);
    engine.take_in(key, "/a");
    let outcome =
        engine.on_duplicate(key, "/b".to_string(), "/a".to_string(), Err("gone".to_string()), created(1));
    assert_eq!(outcome, Err(ColekError::IoError("gone".to_string())));
    assert_eq!(engine.lookup(&key), Some(&"/a".to_string()));
    let outcome = engine.on_duplicate(
        key,
        "/b".to_string(),
        "/a".to_string(),
        created(1),
        Err("no such file".to_string()),
    );
    assert_eq!(outcome, Err(ColekError::IoError("no such file".to_string())));
    assert_eq!(engine.lookup(&key), Some(&"/a".to_string()));
    let outcome = engine.on_duplicate(
        key,
        "/b".to_string(),
        "/a".to_string(),
        Err("first".to_string()),
        Err("second".to_string()),
    );
    assert_eq!(outcome, Err(ColekError::IoError("first".to_string())));
}

#[test]
fn three_files_two_alike_remove_the_later_copy() {
    let x = content_key(b"content X");
    let y = content_key(b"content Y");
    let (t0, t1, t2) = (1_000u128, 1_500u128, 2_000u128);
    let mut engine = AppHasher::new(HasherEventDuplicate::Remove);
    let mut removed: Vec<String> = Vec::new();
    for (key, path, at) in [(x, "a.jpg", t0), (y, "b.png", t1), (x, "c.jpeg", t2)] {
        if let Some(indexed) = engine.take_in(key, path) {
            let indexed_at = if indexed == "a.jpg" { t0 } else { t1 };
            let decided = engine
                .on_duplicate(key, path.to_string(), indexed, created(at), created(indexed_at))
                .unwrap();
            assert_eq!(decided.event, HasherEventDuplicate::Remove);
            removed.push(decided.dropped_path().clone());
        }
    }
    assert_eq!(removed, vec!["c.jpeg".to_string()]);
    assert_eq!(engine.lookup(&x), Some(&"a.jpg".to_string()));
    assert_eq!(engine.lookup(&y), Some(&"b.png".to_string()));
}

#[test]
fn three_files_two_alike_in_the_other_order() {
    let x = content_key(b"content X");
    let y = content_key(b"content Y");
    let (t0, t1, t2) = (1_000u128, 1_500u128, 2_000u128);
    let mut engine = AppHasher::new(HasherEventDuplicate::Remove);
    let mut removed: Vec<String> = Vec::new();
    for (key, path, at) in [(x, "c.jpeg", t2), (y, "b.png", t1), (x, "a.jpg", t0)] {
        if let Some(indexed) = engine.take_in(key, path) {
            let indexed_at = if indexed == "c.jpeg" { t2 } else { t1 };
            let decided = engine
                .on_duplicate(key, path.to_string(), indexed, created(at), created(indexed_at))
                .unwrap();
            removed.push(decided.dropped_path().clone());
        }
    }
    assert_eq!(removed, vec!["c.jpeg".to_string()]);
    assert_eq!(engine.lookup(&x), Some(&"a.jpg".to_string()));
    assert_eq!(engine.lookup(&y), Some(&"b.png".to_string()));
}

fn pairs_of_a_print_run(files: &[(Hashes, &str, u128)]) -> Vec<(String, String)> {
    let mut engine = AppHasher::new(HasherEventDuplicate::Print);
    let mut pairs = Vec::new();
    for (key, path, at) in files {
        if let Some(indexed) = engine.take_in(*key, path) {
            let indexed_at = files.iter().find(|f| f.1 == indexed).unwrap().2;
            let decided = engine
                .on_duplicate(*key, path.to_string(), indexed, created(*at), created(indexed_at))
                .unwrap();
            assert_eq!(decided.event, HasherEventDuplicate::Print);
            pairs.push((decided.kept_path().clone(), decided.dropped_path().clone()));
        }
    }
    pairs
}

#[test]
fn a_print_run_repeated_gives_the_same_pairs() {
    let x = Hashes::new(1, 1);
    let y = Hashes::new(2, 1);
    let files = [(x, "a", 10u128), (y, "b", 20), (x, "c", 5), (y, "d", 30), (x, "e", 7)];
    let first = pairs_of_a_print_run(&files);
    let second = pairs_of_a_print_run(&files);
    assert_eq!(first, second);
    assert_eq!(
        first,
        vec![
            ("c".to_string(), "a".to_string()),
            ("b".to_string(), "d".to_string()),
            ("c".to_string(), "e".to_string()),
        ]
    );
}

#[test]
fn rename_target_is_path_hyphen_hash() {
    let decided = Resolution {
        incoming: "/music/song.mp3".to_string(),
        indexed: "/music/copy.mp3".to_string(),
        keeps_incoming: true,
        hash: 340282366920938463463374607431768211455,
        event: HasherEventDuplicate::Rename,
    };
    assert_eq!(decided.rename_target(), "/music/copy.mp3-340282366920938463463374607431768211455");
    let other = Resolution { keeps_incoming: false, hash: 0, ..decided };
    assert_eq!(other.rename_target(), "/music/song.mp3-0");
}

#[test]
fn report_names_the_incoming_file_first() {
    let decided = Resolution {
        incoming: "/in".to_string(),
        indexed: "/held".to_string(),
        keeps_incoming: false,
        hash: 1234,
        event: HasherEventDuplicate::Print,
    };
    assert_eq!(
        decided.report_lines(),
        vec![
            "==================== DUPLICATE ======================".to_string(),
            "=> /in (1234)".to_string(),
            "=> /held (1234)".to_string(),
            "".to_string(),
        ]
    );
}

#[test]
fn index_separates_keys_with_the_same_hash() {
    let mut index = DuplicateIndex::new();
    let small = Hashes::new(9, 1);
    let large = Hashes::new(9, 2);
    assert_eq!(index.get(&small), None);
    index.insert(small, "/small".to_string());
    assert_eq!(index.get(&small), Some(&"/small".to_string()));
    assert_eq!(index.get(&large), None);
    index.insert(large, "/large".to_string());
    index.insert(Hashes::new(8, 1), "/other".to_string());
    assert_eq!(index.get(&small), Some(&"/small".to_string()));
    assert_eq!(index.get(&large), Some(&"/large".to_string()));
    index.insert(small, "/small2".to_string());
    assert_eq!(index.get(&small), Some(&"/small2".to_string()));
    assert_eq!(index.get(&large), Some(&"/large".to_string()));
    assert_eq!(index.get(&Hashes::new(8, 1)), Some(&"/other".to_string()));
    assert_eq!(index.get(&Hashes::new(8, 2)), None);
}

fn run_in_order(
    event: HasherEventDuplicate,
    files: &[(Hashes, &str, u128)],
    order: &[usize],
) -> (Vec<(Hashes, String)>, Vec<String>) {
    let mut engine = AppHasher::new(event);
    let mut dropped = Vec::new();
    for &at in order {
        let (key, path, created_at) = files[at];
        if let Some(indexed) = engine.take_in(key, path) {
            let indexed_at = files.iter().find(|f| f.1 == indexed).unwrap().2;
            let decided = engine
                .on_duplicate(key, path.to_string(), indexed, created(created_at), created(indexed_at))
                .unwrap();
            dropped.push(decided.dropped_path().clone());
        }
    }
    dropped.sort();
    let mut kept = Vec::new();
    for (key, _, _) in files {
        let path = engine.lookup(key).unwrap().clone();
        if !kept.contains(&(*key, path.clone())) {
            kept.push((*key, path));
        }
    }
    (kept, dropped)
}

fn permutations(n: usize) -> Vec<Vec<usize>> {
    if n == 0 {
        return vec![Vec::new()];
    }
    let mut all = Vec::new();
    for shorter in permutations(n - 1) {
        for at in 0..n {
            let mut longer = shorter.clone();
            longer.insert(at, n - 1);
            all.push(longer);
        }
    }
    all
}

#[test]
fn kept_and_dropped_files_do_not_depend_on_the_order() {
    let x = Hashes::new(1, 1);
    let y = Hashes::new(1, 2);
    let files = [(x, "a", 30u128), (x, "b", 10), (y, "c", 5), (x, "d", 20), (y, "e", 50)];
    for event in
        [HasherEventDuplicate::Print, HasherEventDuplicate::Remove, HasherEventDuplicate::Rename]
    {
        for order in permutations(files.len()) {
            let (kept, dropped) = run_in_order(event, &files, &order);
            assert_eq!(kept, vec![(x, "b".to_string()), (y, "c".to_string())]);
            assert_eq!(dropped, vec!["a".to_string(), "d".to_string(), "e".to_string()]);
        }
    }
}
