use std::io::Write;

use cpi_sync::errors::SyncError;
use cpi_sync::plan::{extract_plan, raw_plan};

fn zip_of(entries: &[(&str, &[u8])]) -> Vec<u8> {
    let mut w = zip::ZipWriter::new(std::io::Cursor::new(Vec::new()));
    let options = zip::write::SimpleFileOptions::default();
    for (name, data) in entries {
        w.start_file(*name, options).unwrap();
        w.write_all(data).unwrap();
    }
    w.finish().unwrap().into_inner()
}

fn seg_strings(segments: &Vec<String>) -> Vec<&str> {
    segments.iter().map(|s| s.as_str()).collect()
}

#[test]
fn raw_plan_writes_one_file_with_identical_bytes() {
    let payload: Vec<u8> = vec![1, 2, 3, 4, 5];
    let item = raw_plan("PKG1", "Art1", payload.clone());
    assert_eq!(seg_strings(&item.segments), vec!["PKG1", "Art1.zip"]);
    assert_eq!(item.data, payload);
}

#[test]
fn extract_plan_writes_each_entry_under_the_artifact_directory() {
    let payload = zip_of(&[("a.txt", b"alpha"), ("dir/b.txt", b"beta")]);
    let items = extract_plan("PKG1", "Art1", payload).unwrap();
    assert_eq!(items.len(), 2);
    assert_eq!(seg_strings(&items[0].segments), vec!["PKG1", "Art1", "a.txt"]);
    assert_eq!(items[0].data, b"alpha");
    assert_eq!(seg_strings(&items[1].segments), vec!["PKG1", "Art1", "dir", "b.txt"]);
    assert_eq!(items[1].data, b"beta");
}

#[test]
fn extract_plan_rejects_traversal_entries() {
    let payload = zip_of(&[("../../evil", b"boom")]);
    let r = extract_plan("PKG1", "Art1", payload);
    assert!(matches!(r, Err(SyncError::ArchiveCorrupt)));
}

#[test]
fn extract_plan_rejects_absolute_entries() {
    let payload = zip_of(&[("/etc/evil", b"boom")]);
    let r = extract_plan("PKG1", "Art1", payload);
    assert!(matches!(r, Err(SyncError::ArchiveCorrupt)));
}

#[test]
fn extract_plan_normalizes_balanced_parent_steps() {
    let payload = zip_of(&[("foo/../bar.txt", b"data")]);
    let items = extract_plan("PKG1", "Art1", payload).unwrap();
    assert_eq!(items.len(), 1);
    assert_eq!(seg_strings(&items[0].segments), vec!["PKG1", "Art1", "bar.txt"]);
}

#[test]
fn extract_plan_skips_directory_entries() {
    let mut w = zip::ZipWriter::new(std::io::Cursor::new(Vec::new()));
    let options = zip::write::SimpleFileOptions::default();
    w.add_directory("dir", options).unwrap();
    w.start_file("dir/b.txt", options).unwrap();
    w.write_all(b"beta").unwrap();
    let payload = w.finish().unwrap().into_inner();
    let items = extract_plan("PKG1", "Art1", payload).unwrap();
    assert_eq!(items.len(), 1);
    assert_eq!(seg_strings(&items[0].segments), vec!["PKG1", "Art1", "dir", "b.txt"]);
}

#[test]
fn extract_plan_rejects_bytes_that_are_no_archive() {
    let r = extract_plan("PKG1", "Art1", vec![0, 1, 2, 3]);
    assert!(matches!(r, Err(SyncError::ArchiveCorrupt)));
}

#[test]
fn extract_plan_of_empty_archive_plans_nothing() {
    let payload = zip_of(&[]);
    let items = extract_plan("PKG1", "Art1", payload).unwrap();
    assert_eq!(items.len(), 0);
}

#[test]
fn enclosed_segments_accepts_plain_paths() {
    let segs = cpi_sync::paths::enclosed_segments("a/b.txt").unwrap();
    assert_eq!(seg_strings(&segs), vec!["a", "b.txt"]);
}

#[test]
fn enclosed_segments_skips_dot_and_empty_components() {
    let segs = cpi_sync::paths::enclosed_segments("./a//./b.txt").unwrap();
    assert_eq!(seg_strings(&segs), vec!["a", "b.txt"]);
}

#[test]
fn enclosed_segments_rejects_escapes() {
    assert!(cpi_sync::paths::enclosed_segments("../evil").is_none());
    assert!(cpi_sync::paths::enclosed_segments("a/../../evil").is_none());
    assert!(cpi_sync::paths::enclosed_segments("/abs").is_none());
    assert!(cpi_sync::paths::enclosed_segments("").is_none());
    assert!(cpi_sync::paths::enclosed_segments("a/..").is_none());
    assert!(cpi_sync::paths::enclosed_segments("nul\u{0}byte").is_none());
}

#[test]
fn enclosed_segments_reads_backslashes_as_separators() {
    let segs = cpi_sync::paths::enclosed_segments("a\\b.txt").unwrap();
    assert_eq!(seg_strings(&segs), vec!["a", "b.txt"]);
    assert!(cpi_sync::paths::enclosed_segments("..\\..\\evil").is_none());
    assert!(cpi_sync::paths::enclosed_segments("\\abs").is_none());
}

#[test]
fn enclosed_segments_rejects_drive_prefixes() {
    assert!(cpi_sync::paths::enclosed_segments("C:evil").is_none());
    assert!(cpi_sync::paths::enclosed_segments("a/C:/evil").is_none());
}

#[test]
fn extract_plan_rejects_backslash_traversal_entries() {
    let payload = zip_of(&[("..\\..\\evil", b"boom")]);
    let r = extract_plan("PKG1", "Art1", payload);
    assert!(matches!(r, Err(SyncError::ArchiveCorrupt)));
}
