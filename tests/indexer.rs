use evidence_index::detector::FileTypeDetector;
use evidence_index::extractors::{ExtractorRegistry, ExtractorInput};
use evidence_index::indexer::{
    apply_image, build_document, failed_extraction, files_to_index, make_doc_id, project_index_dir,
    within_size_limit, FileFacts, ImageOverlay, IndexTally,
};
use evidence_index::schema::FileCategory;
use evidence_index::watcher::{FileChange, UtcTime};
use sha2::Digest;

fn hex16(s: &str) -> String {
    hex::encode(sha2::Sha256::digest(s.as_bytes()))[..16].to_string()
}

#[test]
fn document_id_is_path_hash_prefix() {
    let id = make_doc_id("/e/a.sqlite");
    assert_eq!(id.len(), 16);
    assert_eq!(id, hex16("/e/a.sqlite"));
    assert_eq!(id, make_doc_id("/e/a.sqlite"));
    assert_ne!(id, make_doc_id("/e/b.json"));
}

#[test]
fn project_directory_mapping() {
    let dir = project_index_dir("/home/u/.local/share/forensics", "/cases/E");
    assert_eq!(dir, format!("/home/u/.local/share/forensics/{}", hex16("/cases/E")));
}

#[test]
fn big_files_are_counted_not_indexed() {
    assert!(within_size_limit(100 * 1024 * 1024));
    assert!(!within_size_limit(200 * 1024 * 1024));
    let mut tally = IndexTally::new(4);
    tally.record(FileCategory::Text, 5);
    let stats = tally.finish(1);
    assert_eq!(stats.total_files, 4);
    assert_eq!(stats.indexed_files, 1);
}

#[test]
fn statistics_by_category() {
    let mut tally = IndexTally::new(3);
    tally.record(FileCategory::Database, 8192);
    tally.record(FileCategory::StructuredData, 9);
    tally.record(FileCategory::Text, 5);
    let stats = tally.finish(12);
    assert_eq!(stats.indexed_files, 3);
    assert_eq!(stats.total_size, 8206);
    assert_eq!(
        stats.by_category,
        vec![("Database".to_string(), 1), ("StructuredData".to_string(), 1), ("Text".to_string(), 1)]
    );
}

#[test]
fn only_added_and_modified_are_indexed() {
    let changes = vec![
        FileChange::Added("/e/a".to_string()),
        FileChange::Unchanged("/e/b".to_string()),
        FileChange::Modified("/e/c".to_string()),
        FileChange::Deleted("/e/d".to_string()),
    ];
    assert_eq!(files_to_index(&changes), vec!["/e/a".to_string(), "/e/c".to_string()]);
}

#[test]
fn failed_extraction_and_image_overlay() {
    let mut out = failed_extraction("/e/x.png");
    assert_eq!(out.preview, "File: /e/x.png");
    apply_image(&mut out, &ImageOverlay { width: 640, height: 480, format: "png".to_string(), thumbnail: None });
    assert_eq!(out.preview, "Image: 640x480 png - File: /e/x.png");
    assert_eq!(out.fields.len(), 3);
    assert_eq!(out.fields[0], ("image_width".to_string(), "640".to_string()));
}

#[test]
fn documents_have_bounded_previews() {
    let detected = FileTypeDetector::detect_bytes(b"hello world");
    let registry = ExtractorRegistry::new();
    let content = "w ".repeat(400);
    let extraction = registry
        .extract(detected.category, &detected.mime_type, Some(ExtractorInput::Text { content }))
        .unwrap();
    let facts = FileFacts {
        path: "/e/c.txt".to_string(),
        size: 800,
        modified: UtcTime { secs: 10, nanos: 0 },
        created: None,
        hash: "00".to_string(),
        extension: Some("txt".to_string()),
        indexed_at: UtcTime { secs: 11, nanos: 0 },
    };
    let doc = build_document(facts, detected, extraction, None);
    assert_eq!(doc.id, hex16("/e/c.txt"));
    assert!(doc.preview.unwrap().chars().count() <= 500);
    assert_eq!(doc.metadata.category, FileCategory::Text);
    assert!(doc.metadata.indexed);
}
