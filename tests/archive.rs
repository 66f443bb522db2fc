use sha2::Digest;
use evidence_index::archive::{ArchiveExtractor, ArchiveFormat, ArchiveSettings, UnpackError};

fn host_extractor() -> ArchiveExtractor {
    ArchiveExtractor::new(ArchiveSettings::default())
}

#[test]
fn default_settings() {
    let s = ArchiveSettings::default();
    assert!(s.auto_unpack);
    assert_eq!(s.max_nesting_level, 3);
    assert_eq!(s.max_archive_size, Some(5 * 1024 * 1024 * 1024));
    assert_eq!(s.archive_extensions.len(), 8);
}

#[test]
fn formats_from_extensions() {
    assert_eq!(ArchiveFormat::from_extension("ZIP"), Some(ArchiveFormat::Zip));
    assert_eq!(ArchiveFormat::from_extension("tgz"), Some(ArchiveFormat::TarGz));
    assert_eq!(ArchiveFormat::from_extension("tbz2"), Some(ArchiveFormat::TarBz2));
    assert_eq!(ArchiveFormat::from_extension("7z"), Some(ArchiveFormat::SevenZ));
    assert_eq!(ArchiveFormat::from_extension("txt"), None);
    assert!(ArchiveFormat::Zip.is_supported());
    assert!(ArchiveFormat::Gzip.is_supported());
    assert!(!ArchiveFormat::Rar.is_supported());
    assert!(!ArchiveFormat::TarBz2.is_supported());
    assert!(!ArchiveFormat::Xz.is_supported());
}

#[test]
fn archives_by_extension() {
    let x = host_extractor();
    assert!(x.is_archive("/e/nested.zip"));
    assert!(x.is_archive("/e/logs.TAR"));
    assert!(!x.is_archive("/e/a.sqlite"));
    assert!(!x.is_archive("/e/README"));
}

#[test]
fn format_detection_order() {
    assert_eq!(ArchiveExtractor::detect_format("/e/a.zip", b""), Some(ArchiveFormat::Zip));
    assert_eq!(ArchiveExtractor::detect_format("/e/a.tar.gz", b""), Some(ArchiveFormat::Gzip));
    assert_eq!(ArchiveExtractor::detect_format("/e/blob", b"PK\x03\x04...."), Some(ArchiveFormat::Zip));
    assert_eq!(ArchiveExtractor::detect_format("/e/blob", b"\x1f\x8b\x08\x00"), Some(ArchiveFormat::Gzip));
    assert_eq!(
        ArchiveExtractor::detect_format("/e/blob", b"7z\xbc\xaf\x27\x1c\x00\x04"),
        Some(ArchiveFormat::SevenZ)
    );
    assert_eq!(ArchiveExtractor::detect_format("/e/blob", b"plain"), None);
    assert_eq!(ArchiveExtractor::format_from(None, "x.tar.xz", b""), Some(ArchiveFormat::TarXz));
}

#[test]
fn nesting_limit_boundary() {
    let x = host_extractor();
    let ok = x.plan_unpack("/e/nested.zip", 100, b"PK\x03\x04", "/data/p", 2).unwrap();
    assert_eq!(ok.format, ArchiveFormat::Zip);
    assert_eq!(ok.nesting_level, 2);
    assert_eq!(ok.destination, "/e/nested_unpacked");
    let err = x.plan_unpack("/e/nested.zip", 100, b"PK\x03\x04", "/data/p", 3).unwrap_err();
    assert_eq!(err, UnpackError::NestingTooDeep { level: 3, max_level: 3 });
}

#[test]
fn size_and_format_errors() {
    let mut settings = ArchiveSettings::default();
    settings.max_archive_size = Some(10);
    let x = ArchiveExtractor::new(settings);
    assert_eq!(
        x.plan_unpack("/e/a.zip", 11, b"", "/d", 0).unwrap_err(),
        UnpackError::TooLarge { size: 11, max_size: 10 }
    );
    assert_eq!(x.plan_unpack("/e/a.bin", 1, b"????", "/d", 0).unwrap_err(), UnpackError::UnknownFormat);
    assert_eq!(
        x.plan_unpack("/e/a.rar", 1, b"", "/d", 0).unwrap_err(),
        UnpackError::Unsupported(ArchiveFormat::Rar)
    );
}

#[test]
fn sandbox_destination_uses_path_hash() {
    let mut settings = ArchiveSettings::default();
    settings.unpack_to_host = false;
    let x = ArchiveExtractor::new(settings);
    let plan = x.plan_unpack("/e/nested.zip", 1, b"", "/data/p", 0).unwrap();
    let digest = sha2_hex16("/e/nested.zip");
    assert_eq!(plan.destination, format!("/data/p/unpacked_archives/nested_{}", digest));
}

fn sha2_hex16(s: &str) -> String {
    hex::encode(sha2::Sha256::digest(s.as_bytes()))[..16].to_string()
}

#[test]
fn destination_errors() {
    let x = host_extractor();
    assert_eq!(x.plan_unpack("/", 1, b"PK\x03\x04", "/d", 0).unwrap_err(), UnpackError::NoParent);
    assert_eq!(x.plan_unpack("/e/..", 1, b"PK\x03\x04", "/d", 0).unwrap_err(), UnpackError::InvalidName);
}
