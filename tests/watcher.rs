use evidence_index::watcher::{ChangeDetector, FileChange, Observed, Probe, UtcTime};
use sha2::Digest;

fn sha_hex(data: &[u8]) -> String {
    hex::encode(sha2::Sha256::digest(data))
}

fn regular(size: u64, secs: i64) -> Observed {
    Observed::Regular { size, modified: UtcTime { secs, nanos: 0 } }
}

fn observe(detector: &mut ChangeDetector, path: &str, observed: Observed, content: &[u8]) -> FileChange {
    let hash = if detector.needs_content_hash(path, &observed) { sha_hex(content) } else { String::new() };
    detector.detect_change(path, &observed, &hash)
}

#[test]
fn test_detect_new_file() {
    let mut detector = ChangeDetector::new();
    let change = observe(&mut detector, "/tmp/f", regular(12, 100), b"test content");
    assert!(matches!(change, FileChange::Added(_)));
}

#[test]
fn test_detect_unchanged_file() {
    let mut detector = ChangeDetector::new();
    observe(&mut detector, "/tmp/f", regular(12, 100), b"test content");
    let change = observe(&mut detector, "/tmp/f", regular(12, 100), b"test content");
    assert!(matches!(change, FileChange::Unchanged(_)));
}

#[test]
fn test_detect_modified_file() {
    let mut detector = ChangeDetector::new();
    observe(&mut detector, "/tmp/f", regular(12, 100), b"test content");
    let change = observe(&mut detector, "/tmp/f", regular(21, 200), b"test content modified");
    assert!(matches!(change, FileChange::Modified(_)));
}

#[test]
fn mtime_bump_without_content_change_is_unchanged() {
    let mut detector = ChangeDetector::new();
    observe(&mut detector, "/e/c.txt", regular(5, 100), b"hello");
    let change = observe(&mut detector, "/e/c.txt", regular(5, 300), b"hello");
    assert_eq!(change, FileChange::Unchanged("/e/c.txt".to_string()));
    let state = detector.get_cached_state("/e/c.txt").unwrap();
    assert_eq!(state.modified.secs, 300);
    assert_eq!(detector.cache_size(), 1);
}

#[test]
fn deleted_file_leaves_cache() {
    let mut detector = ChangeDetector::new();
    observe(&mut detector, "/e/b.json", regular(9, 1), b"{\"k\":\"v\"}");
    let change = observe(&mut detector, "/e/b.json", Observed::Missing, b"");
    assert_eq!(change, FileChange::Deleted("/e/b.json".to_string()));
    assert_eq!(detector.cache_size(), 0);
    let again = observe(&mut detector, "/e/b.json", Observed::Missing, b"");
    assert_eq!(again, FileChange::Unchanged("/e/b.json".to_string()));
}

#[test]
fn directories_are_unchanged() {
    let mut detector = ChangeDetector::new();
    let change = observe(&mut detector, "/e/dir", Observed::NotRegular, b"");
    assert_eq!(change, FileChange::Unchanged("/e/dir".to_string()));
    assert_eq!(detector.cache_size(), 0);
}

#[test]
fn cache_round_trips_through_bytes() {
    let mut detector = ChangeDetector::new();
    observe(&mut detector, "/e/a.sqlite", regular(4096, -5), b"db");
    observe(&mut detector, "/e/ünïcode.txt", regular(3, 1_700_000_000), b"abc");
    let bytes = detector.encode();
    assert_eq!(&bytes[0..4], b"EIXC");
    let loaded = ChangeDetector::decode(&bytes).unwrap();
    assert_eq!(loaded.cache_size(), 2);
    let a = loaded.get_cached_state("/e/a.sqlite").unwrap();
    assert_eq!(a.size, 4096);
    assert_eq!(a.modified, UtcTime { secs: -5, nanos: 0 });
    assert_eq!(a.hash, sha_hex(b"db"));
    let u = loaded.get_cached_state("/e/ünïcode.txt").unwrap();
    assert_eq!(u.modified.secs, 1_700_000_000);
    assert_eq!(loaded.encode(), bytes);
}

#[test]
fn corrupt_cache_is_rejected() {
    assert!(ChangeDetector::decode(b"").is_none());
    assert!(ChangeDetector::decode(b"NOPE\x01\x00\x00\x00\x00\x00\x00\x00\x00\x00\x00\x00").is_none());
    let mut detector = ChangeDetector::new();
    observe(&mut detector, "/x", regular(1, 1), b"x");
    let mut bytes = detector.encode();
    bytes.pop();
    assert!(ChangeDetector::decode(&bytes).is_none());
    let empty = ChangeDetector::new().encode();
    assert_eq!(ChangeDetector::decode(&empty).unwrap().cache_size(), 0);
}

#[test]
fn second_scan_of_unchanged_tree_indexes_nothing() {
    let mut detector = ChangeDetector::new();
    let files: Vec<(&str, &[u8], i64)> = vec![("/e/a", b"one", 1), ("/e/b", b"two", 2), ("/e/c", b"three", 3)];
    for (p, c, t) in &files {
        let ch = observe(&mut detector, p, regular(c.len() as u64, *t), c);
        assert!(ch.needs_indexing());
    }
    for (p, c, t) in &files {
        let ch = observe(&mut detector, p, regular(c.len() as u64, *t), c);
        assert!(!ch.needs_indexing());
    }
}

#[test]
fn batch_detection_matches_single_steps() {
    let mut detector = ChangeDetector::new();
    let probes = vec![
        Probe { path: "/e/a".to_string(), observed: regular(1, 1), content_hash: sha_hex(b"a") },
        Probe { path: "/e/b".to_string(), observed: Observed::Missing, content_hash: String::new() },
        Probe { path: "/e/c".to_string(), observed: Observed::NotRegular, content_hash: String::new() },
    ];
    let changes = detector.detect_changes(&probes);
    assert_eq!(
        changes,
        vec![
            FileChange::Added("/e/a".to_string()),
            FileChange::Unchanged("/e/b".to_string()),
            FileChange::Unchanged("/e/c".to_string()),
        ]
    );
    let again = detector.detect_changes(&probes);
    assert!(again.iter().all(|c| !c.needs_indexing()));
}
