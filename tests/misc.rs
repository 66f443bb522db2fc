use evidence_index::db_info::{blob_text, is_sqlite_header, DirEntryFacts, IndexedDbInfo, LevelDbInfo};
use evidence_index::fs_types::{is_hidden_name, BackendType, DirectoryScanOptions, FileSystemBuilder};
use evidence_index::groups::{group_key, parse_group_key};
use evidence_index::image_preview::{DecodedImage, ImagePreviewGenerator, PreviewConfig};

#[test]
fn test_is_image() {
    let config = PreviewConfig::default();
    let generator = ImagePreviewGenerator::new(config, "/tmp/previews".to_string());
    assert!(generator.is_image("test.jpg"));
    assert!(generator.is_image("test.png"));
    assert!(generator.is_image("test.webp"));
    assert!(!generator.is_image("test.txt"));
}

#[test]
fn thumbnails() {
    let mut config = PreviewConfig::default();
    config.enabled = true;
    let g = ImagePreviewGenerator::new(config, "/p".to_string());
    assert_eq!(g.thumbnail_dimensions(1024, 512), (256, 128));
    assert_eq!(g.thumbnail_dimensions(300, 600), (128, 256));
    let info = g.generate_preview(
        "/e/big.png",
        DecodedImage { width: 1000, height: 10, has_alpha: false, color_type: "Rgb8".to_string() },
        "png".to_string(),
    );
    assert_eq!(info.thumbnail_path, Some(g.get_thumbnail_path("/e/big.png")));
    assert!(info.thumbnail_path.unwrap().starts_with("/p/thumb_"));
    let small = g.generate_preview(
        "/e/s.png",
        DecodedImage { width: 10, height: 10, has_alpha: true, color_type: "Rgba8".to_string() },
        "png".to_string(),
    );
    assert_eq!(small.thumbnail_path, None);
    assert_eq!(ImagePreviewGenerator::format_name("/e/A.JPG", None), "jpg");
    assert_eq!(ImagePreviewGenerator::format_name("/e/noext", Some("png".to_string())), "png");
    assert!(ImagePreviewGenerator::is_webp("x.WEBP"));
}

#[test]
fn group_keys_round_trip() {
    let key = group_key("my-group", "red");
    assert_eq!(key, "g-my#group-red");
    assert_eq!(parse_group_key(&key), Some(("my-group".to_string(), "red".to_string())));
    assert_eq!(parse_group_key("__sled__default"), None);
    assert_eq!(parse_group_key("g-nocolor"), None);
}

#[test]
fn database_inspection_helpers() {
    assert!(is_sqlite_header(b"SQLite format 3\0...."));
    assert!(!is_sqlite_header(b"not a database"));
    assert_eq!(blob_text(&[0xde, 0xad]), "0xdead");
    let entries = vec![
        DirEntryFacts { name: "CURRENT".to_string(), is_file: true, is_dir: false, size: 16 },
        DirEntryFacts { name: "000005.ldb".to_string(), is_file: true, is_dir: false, size: 1000 },
        DirEntryFacts { name: "sub".to_string(), is_file: false, is_dir: true, size: 99 },
    ];
    let info = LevelDbInfo::from_entries(&entries);
    assert_eq!(info.approximate_size, 1016);
    assert_eq!(info.key_count, 10);
    assert_eq!(info.files, vec!["CURRENT".to_string(), "000005.ldb".to_string()]);
    let idb = vec![
        DirEntryFacts { name: "app.indexeddb".to_string(), is_file: false, is_dir: true, size: 1000 },
        DirEntryFacts { name: "blob_storage".to_string(), is_file: false, is_dir: true, size: 0 },
    ];
    let info = IndexedDbInfo::from_entries(&idb);
    assert_eq!(info.databases, vec!["app".to_string()]);
    assert_eq!(info.total_keys, 10);
    assert_eq!(info.subdirectories.len(), 2);
    let none = IndexedDbInfo::from_entries(&entries);
    assert_eq!(none.databases, vec!["indexeddb".to_string()]);
    assert_eq!(none.total_keys, 10);
}

#[test]
fn filesystem_builders() {
    assert_eq!(FileSystemBuilder::local().backend_type, BackendType::Local);
    assert!(DirectoryScanOptions::default().parallel);
    assert!(is_hidden_name(".git"));
    assert!(!is_hidden_name("src"));
}
