use evidence_index::detector::FileTypeDetector;
use evidence_index::schema::FileCategory;

#[test]
fn test_detect_sqlite() {
    let detected = FileTypeDetector::detect_bytes(b"SQLite format 3\0");
    assert_eq!(detected.mime_type, "application/vnd.sqlite3");
    assert_eq!(detected.category, FileCategory::Database);
}

#[test]
fn test_detect_json() {
    let detected = FileTypeDetector::detect_bytes(b"{\"key\": \"value\"}");
    assert_eq!(detected.mime_type, "application/json");
    assert_eq!(detected.category, FileCategory::StructuredData);
}

#[test]
fn test_detect_text() {
    let detected = FileTypeDetector::detect_bytes(b"This is plain text content");
    assert_eq!(detected.mime_type, "text/plain");
    assert_eq!(detected.category, FileCategory::Text);
}

#[test]
fn empty_file_is_text() {
    let detected = FileTypeDetector::detect_bytes(b"");
    assert_eq!(detected.mime_type, "text/plain");
    assert_eq!(detected.category, FileCategory::Text);
    assert_eq!(detected.magic_header, "");
}

#[test]
fn zero_block_is_binary() {
    let zeros = vec![0u8; 512];
    let detected = FileTypeDetector::detect_bytes(&zeros);
    assert_eq!(detected.mime_type, "application/octet-stream");
    assert_eq!(detected.category, FileCategory::Binary);
}

#[test]
fn magic_header_is_hex_of_first_sixteen_bytes() {
    let detected = FileTypeDetector::detect_bytes(b"SQLite format 3\0 and more bytes");
    assert_eq!(detected.magic_header, "53514c69746520666f726d6174203300");
    let short = FileTypeDetector::detect_bytes(b"%PDF");
    assert_eq!(short.magic_header, "25504446");
}

#[test]
fn detection_is_repeatable() {
    let input = b"a,b,c\n1,2,3\n4,5,6\n";
    let first = FileTypeDetector::detect_bytes(input);
    let second = FileTypeDetector::detect_bytes(input);
    assert_eq!(first.mime_type, second.mime_type);
    assert_eq!(first.category, second.category);
    assert_eq!(first.magic_header, second.magic_header);
}

#[test]
fn signatures_in_priority_order() {
    let cases: Vec<(&[u8], &str, FileCategory)> = vec![
        (b"leveldb/xyz", "application/x-leveldb", FileCategory::Database),
        (b"PK\x03\x04rest of a plain zip", "application/zip", FileCategory::Archive),
        (
            b"PK\x03\x04....[Content_Types].xml....xl/workbook.xml",
            "application/vnd.openxmlformats-officedocument.spreadsheetml.sheet",
            FileCategory::Document,
        ),
        (
            b"PK\x03\x04....[Content_Types].xml....word/document.xml",
            "application/vnd.openxmlformats-officedocument.wordprocessingml.document",
            FileCategory::Document,
        ),
        (b"%PDF-1.7", "application/pdf", FileCategory::Document),
        (b"PAR1....", "application/vnd.apache.parquet", FileCategory::StructuredData),
        (b"\x89PNG\r\n\x1a\n0000", "image/png", FileCategory::Media),
        (b"\xff\xd8\xff\xe0", "image/jpeg", FileCategory::Media),
        (b"GIF89a..", "image/gif", FileCategory::Media),
        (b"RIFF\x00\x00\x00\x00WEBPVP8 ", "image/webp", FileCategory::Media),
        (b"  [1, 2, 3]", "application/json", FileCategory::StructuredData),
        (b"<?xml version=\"1.0\"?><a/>", "application/xml", FileCategory::StructuredData),
        (b"name,age\nann,3\nbob,4\n", "text/csv", FileCategory::StructuredData),
        (b"\x7fELF\x02\x01\x01\x00\xff\xfe", "application/x-executable", FileCategory::Binary),
        (b"\xfe\xed\xfa\xcf\x00\x00\xff\xfe", "application/x-mach-binary", FileCategory::Binary),
        (b"MZ\x90\x00\xff\xfe\xfd", "application/x-dosexec", FileCategory::Binary),
    ];
    for (bytes, mime, category) in cases {
        let detected = FileTypeDetector::detect_bytes(bytes);
        assert_eq!(detected.mime_type, mime);
        assert_eq!(detected.category, category);
        assert_eq!(FileCategory::from_mime(&detected.mime_type), detected.category);
    }
}

#[test]
fn csv_needs_two_agreeing_lines() {
    let single = FileTypeDetector::detect_bytes(b"one,two,three");
    assert_eq!(single.mime_type, "text/plain");
    let tabs = FileTypeDetector::detect_bytes(b"a\tb\n1\t2\n");
    assert_eq!(tabs.mime_type, "text/csv");
    let disagree = FileTypeDetector::detect_bytes(b"a,b,c,d,e\n1,2\n");
    assert_eq!(disagree.mime_type, "text/plain");
}

#[test]
fn only_first_512_bytes_count() {
    let mut bytes = vec![b'a'; 512];
    bytes.extend_from_slice(&[0xffu8; 64]);
    let detected = FileTypeDetector::detect_bytes(&bytes);
    assert_eq!(detected.mime_type, "text/plain");
}

#[test]
fn category_mapping_table() {
    assert_eq!(FileCategory::from_mime("application/x-sqlite3"), FileCategory::Database);
    assert_eq!(FileCategory::from_mime("text/json"), FileCategory::StructuredData);
    assert_eq!(FileCategory::from_mime("application/msword"), FileCategory::Document);
    assert_eq!(FileCategory::from_mime("text/html"), FileCategory::Text);
    assert_eq!(FileCategory::from_mime("video/mp4"), FileCategory::Media);
    assert_eq!(FileCategory::from_mime("application/gzip"), FileCategory::Archive);
    assert_eq!(FileCategory::from_mime("application/octet-stream"), FileCategory::Binary);
    assert_eq!(FileCategory::from_mime("application/something"), FileCategory::Unknown);
    assert_eq!(FileCategory::StructuredData.keyword(), "structureddata");
    assert_eq!(FileCategory::from_keyword("media"), FileCategory::Media);
    assert_eq!(FileCategory::from_keyword("nonsense"), FileCategory::Unknown);
}

#[test]
fn xml_after_unicode_whitespace() {
    let detected = FileTypeDetector::detect_bytes("\u{a0}\u{3000}<root/>".as_bytes());
    assert_eq!(detected.mime_type, "application/xml");
    let not_xml = FileTypeDetector::detect_bytes(b"x <root/>");
    assert_eq!(not_xml.mime_type, "text/plain");
}
