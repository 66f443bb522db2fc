//! The decisions of a directory indexing run: which files are indexed, how
//! a document is assembled, and the run's statistics.

use vstd::prelude::*;
use crate::detector::DetectedFileType;
use crate::digest::{hash16, hash16_of};
use crate::extractors::{ExtractorOutput, PREVIEW_MAX_CHARS, field_views, head_preview, head_preview_exec};
use crate::paths::{join, path_join};
use crate::schema::{ArchiveSource, FileCategory, ImageMetadata, StructuredData, category_name};
use crate::extractors::{
    column_refs,
    header_refs,
    sheet_and_header_names,
    sheet_names,
    table_and_column_names,
    table_names,
};
use crate::json::JsonPathView;
use crate::text::{concat, decimal, decimal_of, join_strings, joined, string_views};
use crate::watcher::{ChangeKind, FileChange, UtcTime};

verus! {

/// Files larger than this (100 MiB) are counted but not indexed.
pub const MAX_FILE_SIZE: u64 = 104857600;

/// Files are processed, and the index committed, in batches of this size.
pub const BATCH_SIZE: usize = 100;

/// The document id of a path: the first sixteen hex digits of the SHA-256
/// of its UTF-8 bytes.
pub fn make_doc_id(path: &str) -> (r: String)
    ensures
        r@ == hash16_of(path@),
        r@.len() == 16,
{
    hash16(path)
}

/// The index directory of a project: `<data_dir>/<hash16 of the project path>`.
pub fn project_index_dir(data_dir: &str, project_path: &str) -> (r: String)
    ensures
        r@ == path_join(data_dir@, hash16_of(project_path@)),
{
    let h = hash16(project_path);
    join(data_dir, h.as_str())
}

/// Whether a file of `size` bytes is within the per-file limit.
pub fn within_size_limit(size: u64) -> (r: bool)
    ensures
        r == (size <= MAX_FILE_SIZE),
{
    size <= MAX_FILE_SIZE
}

pub open spec fn to_index(c: Seq<FileChange>) -> Seq<Seq<char>>
    decreases c.len(),
{
    if c.len() == 0 {
        seq![]
    } else {
        let rest = to_index(c.drop_last());
        if c.last().kind() == ChangeKind::Added || c.last().kind() == ChangeKind::Modified {
            rest.push(c.last().path_of())
        } else {
            rest
        }
    }
}

/// A scan in which no file is added or modified gives nothing to index; with
/// `lemma_rescan_unchanged`, a repeated run over an unchanged tree indexes
/// no file.
pub proof fn lemma_nothing_to_index(c: Seq<FileChange>)
    requires
        forall|i: int| 0 <= i < c.len() ==> (#[trigger] c[i]).kind() == ChangeKind::Unchanged,
    ensures
        to_index(c).len() == 0,
    decreases c.len(),
{
    if c.len() > 0 {
        let t = c.drop_last();
        assert forall|i: int| 0 <= i < t.len() implies (#[trigger] t[i]).kind() == ChangeKind::Unchanged by {
            assert(t[i] == c[i]);
        }
        lemma_nothing_to_index(t);
        assert(c.last().kind() == ChangeKind::Unchanged);
    }
}

/// The paths of the added and modified files, in order.
pub fn files_to_index(changes: &Vec<FileChange>) -> (r: Vec<String>)
    ensures
        string_views(r@) == to_index(changes@),
{
    let mut out: Vec<String> = Vec::new();
    let mut i: usize = 0;
    while i < changes.len()
        invariant
            i <= changes@.len(),
            string_views(out@) == to_index(changes@.subrange(0, i as int)),
        decreases changes.len() - i,
    {
        let ghost cur = changes@.subrange(0, i + 1);
        assert(cur.drop_last() =~= changes@.subrange(0, i as int));
        if changes[i].needs_indexing() {
            let ghost before = string_views(out@);
            out.push(changes[i].path().clone());
            assert(string_views(out@) =~= before.push(changes@[i as int].path_of()));
        }
        i = i + 1;
    }
    assert(changes@.subrange(0, changes@.len() as int) =~= changes@);
    out
}

/// The output standing in for a failed extraction: `File: <path>`.
pub fn failed_extraction(path: &str) -> (r: ExtractorOutput)
    ensures
        r.structured is None,
        r.content is None,
        r.preview@ == head_preview("File: "@ + path@),
        r.fields@.len() == 0,
{
    let text = concat("File: ", path);
    ExtractorOutput { structured: None, content: None, preview: head_preview_exec(text.as_str()), fields: Vec::new() }
}

/// Image properties found for an indexed file.
#[derive(Debug)]
pub struct ImageOverlay {
    pub width: u32,
    pub height: u32,
    pub format: String,
    pub thumbnail: Option<String>,
}

/// The preview of an image: `Image: WxH FORMAT - ` before the extraction's preview.
pub open spec fn image_preview_text(w: u32, h: u32, format: Seq<char>, preview: Seq<char>) -> Seq<char> {
    "Image: "@ + decimal_of(w as nat) + "x"@ + decimal_of(h as nat) + " "@ + format + " - "@ + preview
}

/// Folds image properties into an extraction: its fields gain the image's
/// width, height, format (and thumbnail) and its preview the image line,
/// kept to 500 characters.
pub fn apply_image(out: &mut ExtractorOutput, img: &ImageOverlay)
    ensures
        final(out).structured == old(out).structured,
        final(out).content == old(out).content,
        final(out).preview@ == head_preview(
            image_preview_text(img.width, img.height, img.format@, old(out).preview@),
        ),
        field_views(final(out).fields@) == field_views(old(out).fields@) + seq![
            ("image_width"@, decimal_of(img.width as nat)),
            ("image_height"@, decimal_of(img.height as nat)),
            ("image_format"@, img.format@),
        ] + match img.thumbnail {
            Some(t) => seq![("thumbnail"@, t@)],
            None => Seq::empty(),
        },
{
    let ghost f0 = field_views(out.fields@);
    let w = decimal(img.width as u64);
    let h = decimal(img.height as u64);
    out.fields.push(("image_width".to_owned(), w.clone()));
    out.fields.push(("image_height".to_owned(), h.clone()));
    out.fields.push(("image_format".to_owned(), img.format.clone()));
    let ghost f1 = field_views(out.fields@);
    assert(f1 =~= f0 + seq![
        ("image_width"@, decimal_of(img.width as nat)),
        ("image_height"@, decimal_of(img.height as nat)),
        ("image_format"@, img.format@),
    ]);
    match &img.thumbnail {
        Some(t) => {
            out.fields.push(("thumbnail".to_owned(), t.clone()));
            assert(field_views(out.fields@) =~= f1 + seq![("thumbnail"@, t@)]);
        },
        None => {
            assert(f1 + Seq::<(Seq<char>, Seq<char>)>::empty() =~= f1);
        },
    }
    let mut text = concat("Image: ", w.as_str());
    text.append("x");
    text.append(h.as_str());
    text.append(" ");
    text.append(img.format.as_str());
    text.append(" - ");
    text.append(out.preview.as_str());
    out.preview = head_preview_exec(text.as_str());
}

/// Metadata indexed for every file.
#[derive(Debug)]
pub struct DocumentMetadata {
    pub path: String,
    pub size: u64,
    pub modified: UtcTime,
    pub created: Option<UtcTime>,
    pub hash: String,
    pub mime_type: String,
    pub category: FileCategory,
    pub magic_header: String,
    pub extension: Option<String>,
    pub indexed: bool,
    pub indexed_at: Option<UtcTime>,
}

/// The unit inserted into the index.
#[derive(Debug)]
pub struct FileDocument {
    pub id: String,
    pub metadata: DocumentMetadata,
    pub structured: Option<StructuredData>,
    pub content: Option<String>,
    /// At most 500 characters.
    pub preview: Option<String>,
    pub image_metadata: Option<ImageMetadata>,
    pub archive_source: Option<ArchiveSource>,
}

/// What was read from the filesystem about a file being indexed.
#[derive(Debug)]
pub struct FileFacts {
    pub path: String,
    pub size: u64,
    pub modified: UtcTime,
    pub created: Option<UtcTime>,
    /// SHA-256 of the content, in lowercase hex.
    pub hash: String,
    pub extension: Option<String>,
    pub indexed_at: UtcTime,
}

/// Assembles the document of a file from its facts, detected type,
/// extraction and image metadata.
pub fn build_document(
    facts: FileFacts,
    detected: DetectedFileType,
    extraction: ExtractorOutput,
    image_metadata: Option<ImageMetadata>,
) -> (r: FileDocument)
    ensures
        r.id@ == hash16_of(facts.path@),
        r.metadata.path@ == facts.path@,
        r.metadata.size == facts.size,
        r.metadata.modified == facts.modified,
        r.metadata.created == facts.created,
        r.metadata.hash@ == facts.hash@,
        r.metadata.mime_type@ == detected.mime_type@,
        r.metadata.category == detected.category,
        r.metadata.magic_header@ == detected.magic_header@,
        r.metadata.extension == facts.extension,
        r.metadata.indexed,
        r.metadata.indexed_at == Some(facts.indexed_at),
        r.structured == extraction.structured,
        r.content == extraction.content,
        r.preview matches Some(p) && p@ == head_preview(extraction.preview@),
        r.image_metadata == image_metadata,
        r.archive_source is None,
{
    let id = make_doc_id(facts.path.as_str());
    let preview = head_preview_exec(extraction.preview.as_str());
    FileDocument {
        id,
        metadata: DocumentMetadata {
            path: facts.path,
            size: facts.size,
            modified: facts.modified,
            created: facts.created,
            hash: facts.hash,
            mime_type: detected.mime_type,
            category: detected.category,
            magic_header: detected.magic_header,
            extension: facts.extension,
            indexed: true,
            indexed_at: Some(facts.indexed_at),
        },
        structured: extraction.structured,
        content: extraction.content,
        preview: Some(preview),
        image_metadata,
        archive_source: None,
    }
}

/// The preview of every document fits in 500 characters.
pub proof fn lemma_document_preview_bounded(d: FileDocument, extraction_preview: Seq<char>)
    requires
        d.preview matches Some(p) && p@ == head_preview(extraction_preview),
    ensures
        d.preview->0@.len() <= PREVIEW_MAX_CHARS,
{
}

/// Statistics of one indexing run.
#[derive(Debug)]
pub struct IndexStats {
    pub total_files: u64,
    pub indexed_files: u64,
    pub total_size: u64,
    /// Indexed files per category name, in category order, omitting zeros.
    pub by_category: Vec<(String, u64)>,
    pub duration_ms: u64,
}

/// The position of a category in the declaration order.
pub open spec fn category_index(c: FileCategory) -> int {
    match c {
        FileCategory::Database => 0,
        FileCategory::StructuredData => 1,
        FileCategory::Document => 2,
        FileCategory::Text => 3,
        FileCategory::Media => 4,
        FileCategory::Archive => 5,
        FileCategory::Binary => 6,
        FileCategory::Unknown => 7,
    }
}

pub open spec fn category_at(i: int) -> FileCategory {
    if i == 0 {
        FileCategory::Database
    } else if i == 1 {
        FileCategory::StructuredData
    } else if i == 2 {
        FileCategory::Document
    } else if i == 3 {
        FileCategory::Text
    } else if i == 4 {
        FileCategory::Media
    } else if i == 5 {
        FileCategory::Archive
    } else if i == 6 {
        FileCategory::Binary
    } else {
        FileCategory::Unknown
    }
}

fn category_index_exec(c: FileCategory) -> (r: usize)
    ensures
        r == category_index(c),
        category_at(r as int) == c,
{
    match c {
        FileCategory::Database => 0,
        FileCategory::StructuredData => 1,
        FileCategory::Document => 2,
        FileCategory::Text => 3,
        FileCategory::Media => 4,
        FileCategory::Archive => 5,
        FileCategory::Binary => 6,
        FileCategory::Unknown => 7,
    }
}

fn category_at_exec(i: usize) -> (r: FileCategory)
    ensures
        r == category_at(i as int),
{
    if i == 0 {
        FileCategory::Database
    } else if i == 1 {
        FileCategory::StructuredData
    } else if i == 2 {
        FileCategory::Document
    } else if i == 3 {
        FileCategory::Text
    } else if i == 4 {
        FileCategory::Media
    } else if i == 5 {
        FileCategory::Archive
    } else if i == 6 {
        FileCategory::Binary
    } else {
        FileCategory::Unknown
    }
}

/// Counters of an indexing run; every counter saturates at `u64::MAX`.
pub struct IndexTally {
    pub total_files: u64,
    pub indexed_files: u64,
    pub total_size: u64,
    /// Indexed files per category, in category order.
    pub per_category: Vec<u64>,
}

impl IndexTally {
    pub open spec fn wf(&self) -> bool {
        self.per_category@.len() == 8
    }

    /// A tally for a run that found `total_files` files.
    pub fn new(total_files: u64) -> (r: IndexTally)
        ensures
            r.wf(),
            r.total_files == total_files,
            r.indexed_files == 0,
            r.total_size == 0,
            forall|i: int| 0 <= i < 8 ==> r.per_category@[i] == 0,
    {
        IndexTally {
            total_files,
            indexed_files: 0,
            total_size: 0,
            per_category: vec![0, 0, 0, 0, 0, 0, 0, 0],
        }
    }

    /// Records one indexed file.
    pub fn record(&mut self, category: FileCategory, size: u64)
        requires
            old(self).wf(),
        ensures
            final(self).wf(),
            final(self).total_files == old(self).total_files,
            final(self).indexed_files == old(self).indexed_files.saturating_add(1),
            final(self).total_size == old(self).total_size.saturating_add(size),
            final(self).per_category@ == old(self).per_category@.update(
                category_index(category),
                old(self).per_category@[category_index(category)].saturating_add(1),
            ),
    {
        self.indexed_files = self.indexed_files.saturating_add(1);
        self.total_size = self.total_size.saturating_add(size);
        let k = category_index_exec(category);
        let v = self.per_category[k].saturating_add(1);
        self.per_category.set(k, v);
    }

    /// The run's statistics.
    pub fn finish(&self, duration_ms: u64) -> (r: IndexStats)
        requires
            self.wf(),
        ensures
            r.total_files == self.total_files,
            r.indexed_files == self.indexed_files,
            r.total_size == self.total_size,
            r.duration_ms == duration_ms,
            r.by_category@.map_values(|e: (String, u64)| (e.0@, e.1)) == nonzero_counts(
                self.per_category@,
                8,
            ),
    {
        let mut by: Vec<(String, u64)> = Vec::new();
        let mut i: usize = 0;
        while i < 8
            invariant
                self.wf(),
                i <= 8,
                by@.map_values(|e: (String, u64)| (e.0@, e.1)) == nonzero_counts(self.per_category@, i as int),
            decreases 8 - i,
        {
            let n = self.per_category[i];
            if n > 0 {
                let ghost before = by@.map_values(|e: (String, u64)| (e.0@, e.1));
                by.push((category_at_exec(i).name(), n));
                assert(by@.map_values(|e: (String, u64)| (e.0@, e.1)) =~= before.push(
                    (category_name(category_at(i as int)), n),
                ));
            }
            i = i + 1;
        }
        IndexStats {
            total_files: self.total_files,
            indexed_files: self.indexed_files,
            total_size: self.total_size,
            by_category: by,
            duration_ms,
        }
    }
}

/// The categories among the first `k` with a non-zero count, named, in order.
pub open spec fn nonzero_counts(counts: Seq<u64>, k: int) -> Seq<(Seq<char>, u64)>
    decreases k,
{
    if k <= 0 {
        seq![]
    } else {
        let rest = nonzero_counts(counts, k - 1);
        if counts[k - 1] > 0 {
            rest.push((category_name(category_at(k - 1)), counts[k - 1]))
        } else {
            rest
        }
    }
}

/// The tokenised text fields of the index that hold structure.
#[derive(Debug, Clone, Copy, PartialEq, Eq, Structural)]
pub enum IndexField {
    Tables,
    Columns,
    Paths,
    Sheets,
}

/// The structural text a summary contributes to the index, per field.
pub open spec fn structured_terms_of(s: StructuredData) -> Seq<(IndexField, Seq<char>)> {
    match s {
        StructuredData::Sqlite { tables, .. } => seq![
            (IndexField::Tables, joined(table_names(tables@), " "@)),
            (IndexField::Columns, joined(column_refs(tables@), " "@)),
        ],
        StructuredData::Json { paths, .. } => seq![
            (IndexField::Paths, joined(crate::json::views(paths@).map_values(|p: JsonPathView| p.path), " "@)),
        ],
        StructuredData::Excel { sheets, .. } => seq![
            (IndexField::Sheets, joined(sheet_names(sheets@), " "@)),
            (IndexField::Columns, joined(header_refs(sheets@), " "@)),
        ],
        StructuredData::Csv { headers, .. } => seq![(IndexField::Columns, joined(string_views(headers@), " "@))],
        _ => seq![],
    }
}

/// The structural text of a summary, per index field.
pub fn structured_terms(s: &StructuredData) -> (r: Vec<(IndexField, String)>)
    ensures
        r@.map_values(|e: (IndexField, String)| (e.0, e.1@)) == structured_terms_of(*s),
{
    let mut out: Vec<(IndexField, String)> = Vec::new();
    match s {
        StructuredData::Sqlite { tables, .. } => {
            let (names, cols) = table_and_column_names(tables);
            out.push((IndexField::Tables, join_strings(&names, " ")));
            out.push((IndexField::Columns, join_strings(&cols, " ")));
        },
        StructuredData::Json { paths, .. } => {
            let mut names: Vec<String> = Vec::new();
            let mut i: usize = 0;
            while i < paths.len()
                invariant
                    i <= paths@.len(),
                    string_views(names@) == crate::json::views(paths@).subrange(0, i as int).map_values(
                        |p: JsonPathView| p.path,
                    ),
                decreases paths.len() - i,
            {
                let ghost before = string_views(names@);
                names.push(paths[i].path.clone());
                assert(crate::json::views(paths@)[i as int] == paths@[i as int]@);
                assert(string_views(names@) =~= before.push(paths@[i as int].path@));
                assert(string_views(names@) =~= crate::json::views(paths@).subrange(0, i + 1).map_values(
                    |p: JsonPathView| p.path,
                ));
                i = i + 1;
            }
            assert(crate::json::views(paths@).subrange(0, paths@.len() as int) =~= crate::json::views(paths@));
            out.push((IndexField::Paths, join_strings(&names, " ")));
        },
        StructuredData::Excel { sheets, .. } => {
            let (names, cols) = sheet_and_header_names(sheets);
            out.push((IndexField::Sheets, join_strings(&names, " ")));
            out.push((IndexField::Columns, join_strings(&cols, " ")));
        },
        StructuredData::Csv { headers, .. } => {
            out.push((IndexField::Columns, join_strings(headers, " ")));
        },
        _ => {},
    }
    assert(out@.map_values(|e: (IndexField, String)| (e.0, e.1@)) =~= structured_terms_of(*s));
    out
}

} // verus!
