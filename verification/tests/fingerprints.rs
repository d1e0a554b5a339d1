//! Scanner, fingerprint table and conflict resolution scenarios.

use worldsync::file_manager::{FileInfo, FileManager, ScanEntry};

fn entry(path: &str, mtime: u64, content: &[u8]) -> ScanEntry {
    ScanEntry { path: path.to_string(), last_modified: mtime, content: Some(content.to_vec()) }
}

fn info(path: &str, mtime: u64, size: u64, hash: &str) -> FileInfo {
    FileInfo { path: path.to_string(), last_modified: mtime, size, hash: hash.to_string() }
}

#[test]
fn scan_empty_directory_yields_nothing() {
    let mut manager = FileManager::new("root".to_string());
    let report = manager.scan_directory(&Vec::new());
    assert_eq!(report.fingerprints.len(), 0);
    assert_eq!(report.failures, 0);
}

#[test]
fn scan_single_file_fingerprint() {
    let mut manager = FileManager::new("root".to_string());
    let report = manager.scan_directory(&vec![entry("a/b.txt", 7, b"x")]);
    assert_eq!(report.failures, 0);
    assert_eq!(report.fingerprints.len(), 1);
    let fp = &report.fingerprints[0];
    assert_eq!(fp.path, "a/b.txt");
    assert_eq!(fp.size, 1);
    assert_eq!(fp.last_modified, 7);
    assert_eq!(fp.hash, "2d711642b726b04401627ca9fbac32f5c8530fb1903cc4db02258717921a4881");
}

#[test]
fn hash_depends_on_content_alone() {
    let mut manager = FileManager::new("root".to_string());
    let report = manager.scan_directory(&vec![
        entry("one/path.txt", 1, b"same content"),
        entry("another/place.dat", 99999, b"same content"),
        entry("third.bin", 5, b"other content"),
    ]);
    assert_eq!(report.failures, 0);
    assert_eq!(report.fingerprints[0].hash, report.fingerprints[1].hash);
    assert_eq!(
        report.fingerprints[0].hash,
        "a636bd7cd42060a4d07fa1bfbcc010eb7794c2ba721e1e3e4c20335a15b66eaf"
    );
    assert_ne!(report.fingerprints[0].hash, report.fingerprints[2].hash);
}

#[test]
fn content_hash_of_empty_body() {
    assert_eq!(
        worldsync::hashing::content_hash(b""),
        "e3b0c44298fc1c149afbf4c8996fb92427ae41e4649b934ca495991b7852b855"
    );
}

#[test]
fn scanner_rejects_parent_directory_segments() {
    let mut manager = FileManager::new("root".to_string());
    let report = manager.scan_directory(&vec![
        entry("../escape.txt", 1, b"x"),
        entry("ok/file.txt", 1, b"x"),
        entry("nested/../also_bad", 1, b"x"),
    ]);
    assert_eq!(report.fingerprints.len(), 1);
    assert_eq!(report.fingerprints[0].path, "ok/file.txt");
    assert_eq!(report.failures, 2);
    assert!(manager.get_file_info("../escape.txt").is_none());
    assert!(manager.get_file_info("ok/file.txt").is_some());
}

#[test]
fn scanner_counts_unreadable_files() {
    let mut manager = FileManager::new("root".to_string());
    let unreadable = ScanEntry {
        path: "locked.bin".to_string(),
        last_modified: 3,
        content: None,
    };
    let report = manager.scan_directory(&vec![unreadable, entry("fine.bin", 3, b"ab")]);
    assert_eq!(report.fingerprints.len(), 1);
    assert_eq!(report.failures, 1);
    assert!(manager.get_file_info("locked.bin").is_none());
}

#[test]
fn lookup_and_update() {
    let mut manager = FileManager::new("root".to_string());
    assert!(manager.get_file_info("a.txt").is_none());
    manager.update_file_info("a.txt".to_string(), info("a.txt", 1, 2, "aa"));
    let got = manager.get_file_info("a.txt").unwrap();
    assert_eq!(got.last_modified, 1);
    manager.update_file_info("a.txt".to_string(), info("a.txt", 9, 2, "bb"));
    let got = manager.get_file_info("a.txt").unwrap();
    assert_eq!(got.last_modified, 9);
    assert_eq!(got.hash, "bb");
}

#[test]
fn newer_fingerprint_wins() {
    let manager = FileManager::new("root".to_string());
    let local = info("w.dat", 100, 1, "1111");
    let remote = info("w.dat", 200, 1, "2222");
    let winner = manager.handle_conflict(&local, &remote);
    assert_eq!(winner.last_modified, 200);
    assert_eq!(winner.hash, "2222");
    let winner = manager.handle_conflict(&remote, &local);
    assert_eq!(winner.last_modified, 200);
    assert_eq!(winner.hash, "2222");
}

#[test]
fn tie_break_is_deterministic_and_commutative() {
    let manager = FileManager::new("root".to_string());
    let a = info("w.dat", 100, 1, "0af3");
    let b = info("w.dat", 100, 1, "0b00");
    let one = manager.handle_conflict(&a, &b);
    let two = manager.handle_conflict(&b, &a);
    assert_eq!(one.hash, "0b00");
    assert_eq!(two.hash, "0b00");
}

#[test]
fn equal_hashes_resolve_to_an_equivalent_record() {
    let manager = FileManager::new("root".to_string());
    let a = info("w.dat", 100, 1, "abcd");
    let b = info("w.dat", 100, 1, "abcd");
    let winner = manager.handle_conflict(&a, &b);
    assert_eq!(winner.hash, "abcd");
    assert_eq!(winner.last_modified, 100);
}
