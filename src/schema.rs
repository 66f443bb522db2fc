//! The data model shared by every component: categories, structural
//! summaries and the document record inserted into the index.

use vstd::prelude::*;
use crate::json::JsonPath;
use crate::text::{chars_of, contains_seq, has_text, is_text, starts_with, starts_with_text};

verus! {

/// Coarse grouping of files used for filtering and extractor dispatch.
#[derive(Debug, Clone, Copy, PartialEq, Eq, Hash, Structural)]
pub enum FileCategory {
    Database,
    StructuredData,
    Document,
    Text,
    Media,
    Archive,
    Binary,
    Unknown,
}

/// The category that the fixed mapping table assigns to a MIME type.
pub open spec fn category_of_mime(m: Seq<char>) -> FileCategory {
    if contains_seq(m, "sqlite"@) || contains_seq(m, "leveldb"@) {
        FileCategory::Database
    } else if m == "application/json"@ || m == "text/json"@ || m == "application/xml"@
        || m == "text/xml"@ || m == "text/csv"@ || m == "application/vnd.apache.parquet"@ {
        FileCategory::StructuredData
    } else if contains_seq(m, "pdf"@) || contains_seq(m, "vnd.openxmlformats"@) || contains_seq(
        m,
        "msword"@,
    ) || contains_seq(m, "vnd.ms-excel"@) {
        FileCategory::Document
    } else if starts_with(m, "text/"@) {
        FileCategory::Text
    } else if starts_with(m, "image/"@) || starts_with(m, "audio/"@) || starts_with(m, "video/"@) {
        FileCategory::Media
    } else if contains_seq(m, "zip"@) || contains_seq(m, "gzip"@) || contains_seq(m, "tar"@) {
        FileCategory::Archive
    } else if m == "application/octet-stream"@ || m == "application/x-executable"@
        || m == "application/x-mach-binary"@ || m == "application/x-dosexec"@ {
        FileCategory::Binary
    } else {
        FileCategory::Unknown
    }
}

/// The lower-case keyword under which a category is stored in the index.
pub open spec fn category_keyword(c: FileCategory) -> Seq<char> {
    match c {
        FileCategory::Database => "database"@,
        FileCategory::StructuredData => "structureddata"@,
        FileCategory::Document => "document"@,
        FileCategory::Text => "text"@,
        FileCategory::Media => "media"@,
        FileCategory::Archive => "archive"@,
        FileCategory::Binary => "binary"@,
        FileCategory::Unknown => "unknown"@,
    }
}

/// The name of a category as it appears in statistics (`StructuredData`).
pub open spec fn category_name(c: FileCategory) -> Seq<char> {
    match c {
        FileCategory::Database => "Database"@,
        FileCategory::StructuredData => "StructuredData"@,
        FileCategory::Document => "Document"@,
        FileCategory::Text => "Text"@,
        FileCategory::Media => "Media"@,
        FileCategory::Archive => "Archive"@,
        FileCategory::Binary => "Binary"@,
        FileCategory::Unknown => "Unknown"@,
    }
}

/// The category named by a stored keyword; anything unrecognised is `Unknown`.
pub open spec fn keyword_category(k: Seq<char>) -> FileCategory {
    if k == "database"@ {
        FileCategory::Database
    } else if k == "structureddata"@ {
        FileCategory::StructuredData
    } else if k == "document"@ {
        FileCategory::Document
    } else if k == "text"@ {
        FileCategory::Text
    } else if k == "media"@ {
        FileCategory::Media
    } else if k == "archive"@ {
        FileCategory::Archive
    } else if k == "binary"@ {
        FileCategory::Binary
    } else {
        FileCategory::Unknown
    }
}

/// Reading back the keyword under which a category is stored gives the category.
pub proof fn lemma_keyword_round_trip(c: FileCategory)
    ensures
        keyword_category(category_keyword(c)) == c,
{
    reveal_strlit("database");
    assert("database"@.len() == 8 && "database"@[0] == 'd' && "database"@[1] == 'a');
    reveal_strlit("structureddata");
    assert("structureddata"@.len() == 14 && "structureddata"@[0] == 's' && "structureddata"@[1] == 't');
    reveal_strlit("document");
    assert("document"@.len() == 8 && "document"@[0] == 'd' && "document"@[1] == 'o');
    reveal_strlit("text");
    assert("text"@.len() == 4 && "text"@[0] == 't' && "text"@[1] == 'e');
    reveal_strlit("media");
    assert("media"@.len() == 5 && "media"@[0] == 'm' && "media"@[1] == 'e');
    reveal_strlit("archive");
    assert("archive"@.len() == 7 && "archive"@[0] == 'a' && "archive"@[1] == 'r');
    reveal_strlit("binary");
    assert("binary"@.len() == 6 && "binary"@[0] == 'b' && "binary"@[1] == 'i');
    reveal_strlit("unknown");
    assert("unknown"@.len() == 7 && "unknown"@[0] == 'u' && "unknown"@[1] == 'n');
}

impl FileCategory {
    /// Maps a MIME type to its category by the fixed table.
    pub fn from_mime(mime: &str) -> (r: FileCategory)
        ensures
            r == category_of_mime(mime@),
    {
        let v = chars_of(mime);
        let m = v.as_slice();
        if has_text(m, "sqlite") || has_text(m, "leveldb") {
            FileCategory::Database
        } else if is_text(m, "application/json") || is_text(m, "text/json") || is_text(m, "application/xml")
            || is_text(m, "text/xml") || is_text(m, "text/csv") || is_text(m, "application/vnd.apache.parquet") {
            FileCategory::StructuredData
        } else if has_text(m, "pdf") || has_text(m, "vnd.openxmlformats") || has_text(m, "msword") || has_text(
            m,
            "vnd.ms-excel",
        ) {
            FileCategory::Document
        } else if starts_with_text(m, "text/") {
            FileCategory::Text
        } else if starts_with_text(m, "image/") || starts_with_text(m, "audio/") || starts_with_text(m, "video/") {
            FileCategory::Media
        } else if has_text(m, "zip") || has_text(m, "gzip") || has_text(m, "tar") {
            FileCategory::Archive
        } else if is_text(m, "application/octet-stream") || is_text(m, "application/x-executable") || is_text(
            m,
            "application/x-mach-binary",
        ) || is_text(m, "application/x-dosexec") {
            FileCategory::Binary
        } else {
            FileCategory::Unknown
        }
    }

    /// The lower-case keyword stored in the index's `category` field.
    pub fn keyword(&self) -> (r: String)
        ensures
            r@ == category_keyword(*self),
    {
        let s = match self {
            FileCategory::Database => "database",
            FileCategory::StructuredData => "structureddata",
            FileCategory::Document => "document",
            FileCategory::Text => "text",
            FileCategory::Media => "media",
            FileCategory::Archive => "archive",
            FileCategory::Binary => "binary",
            FileCategory::Unknown => "unknown",
        };
        s.to_owned()
    }

    /// The category's name as reported in statistics.
    pub fn name(&self) -> (r: String)
        ensures
            r@ == category_name(*self),
    {
        let s = match self {
            FileCategory::Database => "Database",
            FileCategory::StructuredData => "StructuredData",
            FileCategory::Document => "Document",
            FileCategory::Text => "Text",
            FileCategory::Media => "Media",
            FileCategory::Archive => "Archive",
            FileCategory::Binary => "Binary",
            FileCategory::Unknown => "Unknown",
        };
        s.to_owned()
    }

    /// Reads a stored keyword back; anything unrecognised is `Unknown`.
    pub fn from_keyword(k: &str) -> (r: FileCategory)
        ensures
            r == keyword_category(k@),
    {
        let v = chars_of(k);
        let m = v.as_slice();
        if is_text(m, "database") {
            FileCategory::Database
        } else if is_text(m, "structureddata") {
            FileCategory::StructuredData
        } else if is_text(m, "document") {
            FileCategory::Document
        } else if is_text(m, "text") {
            FileCategory::Text
        } else if is_text(m, "media") {
            FileCategory::Media
        } else if is_text(m, "archive") {
            FileCategory::Archive
        } else if is_text(m, "binary") {
            FileCategory::Binary
        } else {
            FileCategory::Unknown
        }
    }
}

/// A column of a database table.
#[derive(Debug, Clone)]
pub struct ColumnInfo {
    pub name: String,
    pub data_type: String,
    pub nullable: bool,
    pub primary_key: bool,
}

/// A database table: its columns, row count and index names.
#[derive(Debug)]
pub struct TableInfo {
    pub name: String,
    pub columns: Vec<ColumnInfo>,
    pub row_count: u64,
    pub indexes: Vec<String>,
}

/// The inferred type of a CSV column.
#[derive(Debug, Clone)]
pub struct ColumnSchema {
    pub name: String,
    pub data_type: String,
    pub nullable: bool,
}

/// A worksheet: its name, header row and row count.
#[derive(Debug, Clone)]
pub struct SheetInfo {
    pub name: String,
    pub headers: Vec<String>,
    pub row_count: u64,
}

/// Structural summary produced by a format-specific extractor.
#[derive(Debug)]
pub enum StructuredData {
    Sqlite { tables: Vec<TableInfo>, total_rows: u64, page_size: u32, version: String },
    Json { paths: Vec<JsonPath>, depth: u64, object_count: u64, array_count: u64 },
    Csv { headers: Vec<String>, row_count: u64, delimiter: char, schema: Vec<ColumnSchema> },
    Excel { sheets: Vec<SheetInfo>, total_rows: u64 },
    Xml { root_element: String, namespaces: Vec<String>, element_count: u64 },
    Parquet { schema: Vec<ColumnSchema>, row_count: u64, row_groups: u64 },
    LevelDb { key_count: u64, approximate_size: u64 },
}

/// Image properties recorded with a document.
#[derive(Debug, Clone)]
pub struct ImageMetadata {
    pub width: u32,
    pub height: u32,
    pub format: String,
    pub has_alpha: bool,
    pub thumbnail_path: Option<String>,
}

/// Where a file unpacked from an archive came from.
#[derive(Debug, Clone)]
pub struct ArchiveSource {
    pub archive_path: String,
    pub relative_path: String,
    pub archive_format: String,
}

} // verus!
