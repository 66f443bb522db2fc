use evidence_index::extractors::{
    CsvExtractor, ExtractError, ExtractorInput, ExtractorKind, ExtractorRegistry, IndexedDbExtractor,
    JsonExtractor, LevelDbExtractor, SqliteExtractor, TextExtractor, XmlEvent, XmlExtractor, ExcelExtractor,
    Extractor,
};
use evidence_index::json::{JsonNode, JsonValueType, extract_paths};
use evidence_index::schema::{ColumnInfo, FileCategory, SheetInfo, StructuredData, TableInfo};

fn field<'a>(fields: &'a [(String, String)], key: &str) -> &'a str {
    &fields.iter().find(|(k, _)| k == key).unwrap().1
}

#[test]
fn registry_dispatch_in_order() {
    let r = ExtractorRegistry::new();
    assert_eq!(r.extractors.len(), 8);
    assert_eq!(r.find_extractor(FileCategory::Database, "application/vnd.sqlite3"), Some(ExtractorKind::Sqlite));
    assert_eq!(r.find_extractor(FileCategory::Database, "application/x-leveldb"), Some(ExtractorKind::LevelDb));
    assert_eq!(r.find_extractor(FileCategory::StructuredData, "text/csv"), Some(ExtractorKind::Csv));
    assert_eq!(r.find_extractor(FileCategory::Text, "text/plain"), Some(ExtractorKind::Text));
    assert_eq!(r.find_extractor(FileCategory::Media, "image/png"), None);
    assert_eq!(r.duplicate().extractors, r.extractors);
}

#[test]
fn no_extractor_gives_mime_preview() {
    let r = ExtractorRegistry::new();
    let out = r.extract(FileCategory::Media, "image/png", None).unwrap();
    assert_eq!(out.preview, "image/png file");
    assert!(out.fields.is_empty());
    let err = r.extract(FileCategory::Text, "text/plain", None).unwrap_err();
    assert_eq!(err, ExtractError::WrongInput { expected: ExtractorKind::Text });
}

#[test]
fn text_summary_and_preview() {
    let out = TextExtractor::summarize("hello world\nsecond line".to_string());
    assert_eq!(out.preview, "hello world\nsecond line");
    assert_eq!(field(&out.fields, "line_count"), "2");
    assert_eq!(field(&out.fields, "word_count"), "4");
    assert_eq!(field(&out.fields, "char_count"), "23");
    let empty = TextExtractor::summarize(String::new());
    assert_eq!(empty.preview, "");
    assert_eq!(field(&empty.fields, "line_count"), "0");
    let long: String = "x".repeat(600);
    let out = TextExtractor::summarize(long);
    assert_eq!(out.preview.chars().count(), 499);
    assert!(out.preview.ends_with("\n…"));
}

fn nested(depth: usize) -> JsonNode {
    let mut node = JsonNode::Number("1".to_string());
    for _ in 0..depth {
        node = JsonNode::Object(vec![("k".to_string(), node)]);
    }
    node
}

#[test]
fn json_paths_and_counts() {
    let root = JsonNode::Object(vec![
        ("k".to_string(), JsonNode::Str("v".to_string())),
        (
            "list".to_string(),
            JsonNode::Array(vec![
                JsonNode::Bool(true),
                JsonNode::Null,
                JsonNode::Number("3".to_string()),
                JsonNode::Number("4".to_string()),
            ]),
        ),
    ]);
    let paths = extract_paths(&root);
    let names: Vec<&str> = paths.iter().map(|p| p.path.as_str()).collect();
    assert_eq!(names, vec!["$.k", "$.list", "$.list[0]", "$.list[1]", "$.list[2]"]);
    assert_eq!(paths[0].value_type, JsonValueType::String);
    assert_eq!(paths[0].sample.as_deref(), Some("v"));
    assert_eq!(paths[2].sample.as_deref(), Some("true"));
    assert_eq!(paths[3].sample.as_deref(), Some("null"));
    let out = JsonExtractor::summarize("{\"k\":\"v\"}".to_string(), &root);
    match out.structured {
        Some(StructuredData::Json { depth, object_count, array_count, .. }) => {
            assert_eq!((depth, object_count, array_count), (2, 1, 1));
        }
        _ => panic!("expected JSON structure"),
    }
    assert_eq!(out.preview, "{\"k\":\"v\"}");
}

#[test]
fn json_depth_21_is_truncated_at_20() {
    let root = nested(21);
    let paths = extract_paths(&root);
    assert_eq!(paths.len(), 20);
    let out = JsonExtractor::summarize(String::new(), &root);
    match out.structured {
        Some(StructuredData::Json { depth, object_count, .. }) => {
            assert_eq!(depth, 21);
            assert_eq!(object_count, 21);
        }
        _ => panic!("expected JSON structure"),
    }
}

#[test]
fn long_string_sample_is_cut() {
    let root = JsonNode::Object(vec![("s".to_string(), JsonNode::Str("y".repeat(150)))]);
    let paths = extract_paths(&root);
    let sample = paths[0].sample.clone().unwrap();
    assert_eq!(sample.chars().count(), 100);
    assert!(sample.ends_with("..."));
}

#[test]
fn csv_header_only() {
    let headers = vec!["id".to_string(), "name".to_string()];
    let out = CsvExtractor::summarize(headers, &Vec::new(), 0, ',');
    match &out.structured {
        Some(StructuredData::Csv { row_count, schema, delimiter, headers }) => {
            assert_eq!(*row_count, 0);
            assert_eq!(schema.len(), headers.len());
            assert!(schema.iter().zip(headers.iter()).all(|(c, h)| &c.name == h && c.nullable));
            assert_eq!(*delimiter, ',');
            assert!(schema.iter().all(|c| c.data_type == "string"));
        }
        _ => panic!("expected CSV structure"),
    }
    assert_eq!(out.preview, "CSV file: 2 columns, 0 rows. Headers: id, name");
    assert_eq!(field(&out.fields, "columns"), "id, name");
}

#[test]
fn csv_types_and_delimiter() {
    let headers = vec!["n".to_string(), "x".to_string(), "s".to_string(), "e".to_string()];
    let rows = vec![
        vec!["1".to_string(), "1.5".to_string(), "a".to_string(), "".to_string()],
        vec!["-2".to_string(), "2".to_string(), "3".to_string(), "".to_string()],
        vec!["".to_string(), "1e3".to_string(), "b".to_string(), "".to_string()],
    ];
    let schema = CsvExtractor::infer_schema(&headers, &rows);
    let types: Vec<&str> = schema.iter().map(|c| c.data_type.as_str()).collect();
    assert_eq!(types, vec!["integer", "number", "string", "string"]);
    assert_eq!(CsvExtractor::infer_delimiter("a;b;c|d"), ';');
    assert_eq!(CsvExtractor::infer_delimiter("a\tb\tc,d"), '\t');
    assert_eq!(CsvExtractor::infer_delimiter("a,b|c;d\te"), ',');
    assert_eq!(CsvExtractor::infer_delimiter(""), ',');
}

#[test]
fn sqlite_summary() {
    let tables = vec![TableInfo {
        name: "users".to_string(),
        columns: vec![
            ColumnInfo { name: "id".to_string(), data_type: "INT".to_string(), nullable: true, primary_key: true },
            ColumnInfo { name: "name".to_string(), data_type: "TEXT".to_string(), nullable: true, primary_key: false },
        ],
        row_count: 3,
        indexes: vec![],
    }];
    let out = SqliteExtractor::summarize(tables, "3.45.0".to_string(), 4096);
    assert_eq!(out.preview, "SQLite database: 1 tables, 3 total rows. Tables: users");
    assert_eq!(field(&out.fields, "tables"), "users");
    assert_eq!(field(&out.fields, "columns"), "users.id users.name");
    assert_eq!(field(&out.fields, "total_rows"), "3");
}

#[test]
fn excel_xml_leveldb_indexeddb_summaries() {
    let sheets = vec![SheetInfo { name: "S1".to_string(), headers: vec!["a".to_string()], row_count: 7 }];
    let out = ExcelExtractor::summarize(sheets);
    assert_eq!(out.preview, "Excel workbook: 1 sheets, 7 total rows. Sheets: S1");
    assert_eq!(field(&out.fields, "columns"), "S1.a");
    let el = |name: &str, attrs: &[(&str, &str)]| XmlEvent::Element {
        name: name.to_string(),
        attributes: attrs.iter().map(|(k, v)| (k.to_string(), v.to_string())).collect(),
    };
    let events = vec![
        XmlEvent::Other,
        el("r", &[("xmlns", "urn:a"), ("id", "1")]),
        el("x:c", &[("xmlns:x", "urn:b")]),
        XmlEvent::Other,
        el("d", &[("xmlns", "urn:a")]),
    ];
    let out = XmlExtractor::summarize_events("<r/>".to_string(), &events);
    assert_eq!(field(&out.fields, "namespaces"), "urn:a, urn:b");
    assert_eq!(field(&out.fields, "root_element"), "r");
    assert_eq!(field(&out.fields, "element_count"), "3");
    let none = XmlExtractor::summarize_events(String::new(), &vec![XmlEvent::Other]);
    assert_eq!(field(&none.fields, "root_element"), "");
    assert_eq!(field(&none.fields, "element_count"), "0");
    let out = LevelDbExtractor::summarize(1234);
    assert_eq!(out.preview, "LevelDB database: ~12 keys, ~1234 bytes");
    let out = IndexedDbExtractor::summarize(vec!["app".to_string()], 5);
    assert_eq!(out.preview, "Chrome IndexedDB: 1 databases (app), ~5 records");
    assert!(LevelDbExtractor::is_leveldb_directory(&vec!["LOCK".to_string()]));
    assert!(!LevelDbExtractor::is_leveldb_directory(&vec!["data".to_string()]));
    assert!(IndexedDbExtractor::is_indexeddb_directory(&vec!["x.indexeddb".to_string()]));
    assert!(!IndexedDbExtractor::is_indexeddb_directory(&vec!["x.txt".to_string()]));
}

#[test]
fn indexeddb_key_names() {
    assert_eq!(IndexedDbExtractor::parse_database_name("mydb@1"), Some("mydb".to_string()));
    assert_eq!(IndexedDbExtractor::parse_database_name("db-id-7-notes-x"), Some("notes".to_string()));
    assert_eq!(IndexedDbExtractor::parse_database_name("db-id"), None);
    assert_eq!(IndexedDbExtractor::parse_database_name("plain"), None);
}

#[test]
fn registry_runs_selected_extractor() {
    let r = ExtractorRegistry::new();
    let out = r
        .extract(FileCategory::Text, "text/plain", Some(ExtractorInput::Text { content: "hello".to_string() }))
        .unwrap();
    assert_eq!(out.preview, "hello");
    assert_eq!(out.content.as_deref(), Some("hello"));
}

#[test]
fn extractor_names_in_lookup_order() {
    let r = ExtractorRegistry::new();
    let names: Vec<&str> = r.extractors.iter().map(|k| k.name()).collect();
    assert_eq!(names, vec!["sqlite", "json", "csv", "excel", "xml", "text", "leveldb", "indexeddb"]);
}

#[test]
fn empty_text_file_has_empty_preview() {
    let r = ExtractorRegistry::new();
    let out = r
        .extract(FileCategory::Text, "text/plain", Some(ExtractorInput::Text { content: String::new() }))
        .unwrap();
    assert_eq!(out.preview, "");
    assert_eq!(out.content.as_deref(), Some(""));
}

#[test]
fn integer_column_bounds() {
    let headers = vec!["a".to_string(), "b".to_string(), "c".to_string()];
    let rows = vec![
        vec!["9223372036854775807".to_string(), "9223372036854775808".to_string(), "-".to_string()],
        vec!["-9223372036854775808".to_string(), "+5".to_string(), "1".to_string()],
    ];
    let schema = CsvExtractor::infer_schema(&headers, &rows);
    let types: Vec<&str> = schema.iter().map(|c| c.data_type.as_str()).collect();
    assert_eq!(types, vec!["integer", "number", "string"]);
}
