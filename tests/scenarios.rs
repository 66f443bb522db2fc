use evidence_index::archive::{ArchiveExtractor, ArchiveFormat, ArchiveSettings};
use evidence_index::detector::FileTypeDetector;
use evidence_index::extractors::{ExtractorInput, ExtractorRegistry};
use evidence_index::indexer::{files_to_index, structured_terms, IndexField, IndexTally};
use evidence_index::json::JsonNode;
use evidence_index::query::{Query, QueryPlanner, SearchPlan, StructuredQueryType};
use evidence_index::schema::{ColumnInfo, FileCategory, StructuredData, TableInfo};
use evidence_index::watcher::{ChangeDetector, FileChange, Observed, UtcTime};
use sha2::Digest;

fn sha_hex(data: &[u8]) -> String {
    hex::encode(sha2::Sha256::digest(data))
}

fn scan(detector: &mut ChangeDetector, files: &[(&str, Option<&[u8]>)]) -> Vec<FileChange> {
    files
        .iter()
        .map(|(path, content)| {
            let observed = match content {
                Some(c) => Observed::Regular { size: c.len() as u64, modified: UtcTime { secs: c.len() as i64, nanos: 0 } },
                None => Observed::Missing,
            };
            let hash = if detector.needs_content_hash(path, &observed) {
                sha_hex(content.unwrap_or(b""))
            } else {
                String::new()
            };
            detector.detect_change(path, &observed, &hash)
        })
        .collect()
}

fn users_table() -> TableInfo {
    TableInfo {
        name: "users".to_string(),
        columns: vec![
            ColumnInfo { name: "id".to_string(), data_type: "INT".to_string(), nullable: true, primary_key: true },
            ColumnInfo { name: "name".to_string(), data_type: "TEXT".to_string(), nullable: true, primary_key: false },
        ],
        row_count: 3,
        indexes: vec![],
    }
}

const SQLITE: &[u8] = b"SQLite format 3\0\x10\x00\x01\x01";
const JSON: &[u8] = b"{\"k\":\"v\"}";

#[test]
fn three_file_tree_is_indexed() {
    let mut detector = ChangeDetector::new();
    let tree: Vec<(&str, Option<&[u8]>)> =
        vec![("E/a.sqlite", Some(SQLITE)), ("E/b.json", Some(JSON)), ("E/c.txt", Some(b"hello"))];
    let changes = scan(&mut detector, &tree);
    let to_index = files_to_index(&changes);
    assert_eq!(to_index.len(), 3);
    let registry = ExtractorRegistry::new();
    let mut tally = IndexTally::new(3);
    let inputs = vec![
        ExtractorInput::Sqlite { tables: vec![users_table()], version: "3".to_string(), page_size: 4096 },
        ExtractorInput::Json {
            content: "{\"k\":\"v\"}".to_string(),
            root: JsonNode::Object(vec![("k".to_string(), JsonNode::Str("v".to_string()))]),
        },
        ExtractorInput::Text { content: "hello".to_string() },
    ];
    let mut table_terms = Vec::new();
    for ((_, content), input) in tree.iter().zip(inputs) {
        let bytes = content.unwrap();
        let detected = FileTypeDetector::detect_bytes(bytes);
        let out = registry.extract(detected.category, &detected.mime_type, Some(input)).unwrap();
        if let Some(s) = &out.structured {
            if let StructuredData::Sqlite { .. } = s {
                table_terms = structured_terms(s);
            }
        }
        tally.record(detected.category, bytes.len() as u64);
    }
    let stats = tally.finish(0);
    assert_eq!(stats.total_files, 3);
    assert_eq!(stats.indexed_files, 3);
    assert_eq!(
        stats.by_category,
        vec![("Database".to_string(), 1), ("StructuredData".to_string(), 1), ("Text".to_string(), 1)]
    );
    assert_eq!(table_terms[0], (IndexField::Tables, "users".to_string()));
    let plan = QueryPlanner::plan(&Query::Structured { structured_type: StructuredQueryType::SqlTable, query: "users".to_string() });
    match plan {
        SearchPlan::Search { query, .. } => assert_eq!(query, "tables:users"),
        _ => panic!("expected a search"),
    }
    let again = scan(&mut detector, &tree);
    assert!(files_to_index(&again).is_empty());
}

#[test]
fn modified_text_is_reindexed() {
    let mut detector = ChangeDetector::new();
    let tree: Vec<(&str, Option<&[u8]>)> =
        vec![("E/a.sqlite", Some(SQLITE)), ("E/b.json", Some(JSON)), ("E/c.txt", Some(b"hello"))];
    scan(&mut detector, &tree);
    let edited: Vec<(&str, Option<&[u8]>)> =
        vec![("E/a.sqlite", Some(SQLITE)), ("E/b.json", Some(JSON)), ("E/c.txt", Some(b"hello world"))];
    let changes = scan(&mut detector, &edited);
    assert_eq!(files_to_index(&changes), vec!["E/c.txt".to_string()]);
    let registry = ExtractorRegistry::new();
    let out = registry
        .extract(FileCategory::Text, "text/plain", Some(ExtractorInput::Text { content: "hello world".to_string() }))
        .unwrap();
    assert!(out.content.unwrap().contains("world"));
}

#[test]
fn deleted_json_is_reported() {
    let mut detector = ChangeDetector::new();
    let tree: Vec<(&str, Option<&[u8]>)> =
        vec![("E/a.sqlite", Some(SQLITE)), ("E/b.json", Some(JSON)), ("E/c.txt", Some(b"hello"))];
    scan(&mut detector, &tree);
    let after: Vec<(&str, Option<&[u8]>)> =
        vec![("E/a.sqlite", Some(SQLITE)), ("E/c.txt", Some(b"hello")), ("E/b.json", None)];
    let changes = scan(&mut detector, &after);
    assert!(changes.contains(&FileChange::Deleted("E/b.json".to_string())));
    assert!(files_to_index(&changes).is_empty());
    assert_eq!(IndexTally::new(2).finish(0).total_files, 2);
}

#[test]
fn nested_archives_unpack_one_level_per_scan() {
    let x = ArchiveExtractor::new(ArchiveSettings::default());
    assert!(x.is_archive("E/nested.zip"));
    let first = x.plan_unpack("E/nested.zip", 300, b"PK\x03\x04", "/idx", 0).unwrap();
    assert_eq!(first.destination, "E/nested_unpacked");
    assert!(x.is_archive("E/nested_unpacked/nested2.zip"));
    let second = x.plan_unpack("E/nested_unpacked/nested2.zip", 150, b"PK\x03\x04", "/idx", 0).unwrap();
    assert_eq!(second.format, ArchiveFormat::Zip);
    assert_eq!(second.destination, "E/nested_unpacked/nested2_unpacked");
    assert!(!x.is_archive("E/nested_unpacked/nested2_unpacked/leaf.txt"));
    assert_eq!(FileTypeDetector::detect_bytes(b"leaf").category, FileCategory::Text);
}
