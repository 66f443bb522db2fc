//! The extractor registry and the format-specific summaries: structured
//! data, optional full content, a bounded preview and searchable fields.

use vstd::prelude::*;
use crate::json::{JsonNode, analyze, capped, extract_paths, node_paths, tree_stats, views};
use crate::numeric::{float_text, i64_text, is_float_text, is_i64_text};
use crate::schema::{ColumnSchema, FileCategory, SheetInfo, StructuredData, TableInfo};
use crate::text::{
    chars_of,
    contains_seq,
    decimal,
    decimal_of,
    has_text,
    is_text,
    concat,
    join_strings,
    joined,
    line_count_of,
    string_from_chars,
    string_views,
    take_chars,
    text_counts,
    word_count_of,
};

verus! {

/// Longest preview, in characters.
pub const PREVIEW_MAX_CHARS: usize = 500;

/// Characters of text kept before the truncation marker.
pub const PREVIEW_TEXT_KEEP: usize = 497;

/// What an extractor produces for one file.
#[derive(Debug)]
pub struct ExtractorOutput {
    pub structured: Option<StructuredData>,
    pub content: Option<String>,
    /// At most 500 characters.
    pub preview: String,
    /// Key/value pairs for the index's generic field.
    pub fields: Vec<(String, String)>,
}

/// The keys and values of a field list.
pub open spec fn field_views(f: Seq<(String, String)>) -> Seq<(Seq<char>, Seq<char>)> {
    f.map_values(|kv: (String, String)| (kv.0@, kv.1@))
}

/// The built-in extractors, in registration order.
#[derive(Debug, Clone, Copy, PartialEq, Eq, Structural)]
pub enum ExtractorKind {
    Sqlite,
    Json,
    Csv,
    Excel,
    Xml,
    Text,
    LevelDb,
    IndexedDb,
}

/// Whether extractor `k` handles files of this category and MIME type.
pub open spec fn handles(k: ExtractorKind, c: FileCategory, m: Seq<char>) -> bool {
    match k {
        ExtractorKind::Sqlite => c == FileCategory::Database && (contains_seq(m, "sqlite"@) || contains_seq(
            m,
            "x-sqlite"@,
        )),
        ExtractorKind::Json => c == FileCategory::StructuredData && (m == "application/json"@ || m
            == "text/json"@),
        ExtractorKind::Csv => c == FileCategory::StructuredData && m == "text/csv"@,
        ExtractorKind::Excel => c == FileCategory::Document && contains_seq(
            m,
            "vnd.openxmlformats-officedocument.spreadsheetml"@,
        ),
        ExtractorKind::Xml => c == FileCategory::StructuredData && (m == "application/xml"@ || m
            == "text/xml"@),
        ExtractorKind::Text => c == FileCategory::Text,
        ExtractorKind::LevelDb => c == FileCategory::Database && (contains_seq(m, "leveldb"@) || contains_seq(
            m,
            "x-leveldb"@,
        )),
        ExtractorKind::IndexedDb => c == FileCategory::Database,
    }
}

/// The short name of an extractor.
pub open spec fn kind_name(k: ExtractorKind) -> Seq<char> {
    match k {
        ExtractorKind::Sqlite => "sqlite"@,
        ExtractorKind::Json => "json"@,
        ExtractorKind::Csv => "csv"@,
        ExtractorKind::Excel => "excel"@,
        ExtractorKind::Xml => "xml"@,
        ExtractorKind::Text => "text"@,
        ExtractorKind::LevelDb => "leveldb"@,
        ExtractorKind::IndexedDb => "indexeddb"@,
    }
}

/// An extractor's selection predicate and name.
pub trait Extractor {
    spec fn kind(&self) -> ExtractorKind;

    /// Whether this extractor handles files of this category and MIME type.
    fn can_handle(&self, category: FileCategory, mime_type: &str) -> (r: bool)
        ensures
            r == handles(self.kind(), category, mime_type@),
    ;

    /// The extractor's short name.
    fn name(&self) -> (r: &'static str)
        ensures
            r@ == kind_name(self.kind()),
    ;
}

impl Extractor for ExtractorKind {
    open spec fn kind(&self) -> ExtractorKind {
        *self
    }

    fn can_handle(&self, category: FileCategory, mime_type: &str) -> (r: bool) {
        let v = chars_of(mime_type);
        let m = v.as_slice();
        match self {
            ExtractorKind::Sqlite => category == FileCategory::Database && (has_text(m, "sqlite")
                || has_text(m, "x-sqlite")),
            ExtractorKind::Json => category == FileCategory::StructuredData && (is_text(
                m,
                "application/json",
            ) || is_text(m, "text/json")),
            ExtractorKind::Csv => category == FileCategory::StructuredData && is_text(m, "text/csv"),
            ExtractorKind::Excel => category == FileCategory::Document && has_text(
                m,
                "vnd.openxmlformats-officedocument.spreadsheetml",
            ),
            ExtractorKind::Xml => category == FileCategory::StructuredData && (is_text(
                m,
                "application/xml",
            ) || is_text(m, "text/xml")),
            ExtractorKind::Text => category == FileCategory::Text,
            ExtractorKind::LevelDb => category == FileCategory::Database && (has_text(m, "leveldb")
                || has_text(m, "x-leveldb")),
            ExtractorKind::IndexedDb => category == FileCategory::Database,
        }
    }

    fn name(&self) -> (r: &'static str) {
        match self {
            ExtractorKind::Sqlite => "sqlite",
            ExtractorKind::Json => "json",
            ExtractorKind::Csv => "csv",
            ExtractorKind::Excel => "excel",
            ExtractorKind::Xml => "xml",
            ExtractorKind::Text => "text",
            ExtractorKind::LevelDb => "leveldb",
            ExtractorKind::IndexedDb => "indexeddb",
        }
    }
}

/// The built-in extractors in the order they are consulted.
pub open spec fn builtin_extractors() -> Seq<ExtractorKind> {
    seq![
        ExtractorKind::Sqlite,
        ExtractorKind::Json,
        ExtractorKind::Csv,
        ExtractorKind::Excel,
        ExtractorKind::Xml,
        ExtractorKind::Text,
        ExtractorKind::LevelDb,
        ExtractorKind::IndexedDb,
    ]
}

/// The first extractor of `ks` that handles the file, if any.
pub open spec fn first_handler(ks: Seq<ExtractorKind>, c: FileCategory, m: Seq<char>) -> Option<
    ExtractorKind,
>
    decreases ks.len(),
{
    if ks.len() == 0 {
        None
    } else if handles(ks[0], c, m) {
        Some(ks[0])
    } else {
        first_handler(ks.drop_first(), c, m)
    }
}

/// Extractors consulted in registration order; the set is closed.
pub struct ExtractorRegistry {
    pub extractors: Vec<ExtractorKind>,
}

impl ExtractorRegistry {
    /// A registry with every built-in extractor.
    pub fn new() -> (r: ExtractorRegistry)
        ensures
            r.extractors@ == builtin_extractors(),
    {
        let mut r = ExtractorRegistry { extractors: Vec::new() };
        r.register(ExtractorKind::Sqlite);
        r.register(ExtractorKind::Json);
        r.register(ExtractorKind::Csv);
        r.register(ExtractorKind::Excel);
        r.register(ExtractorKind::Xml);
        r.register(ExtractorKind::Text);
        r.register(ExtractorKind::LevelDb);
        r.register(ExtractorKind::IndexedDb);
        assert(r.extractors@ =~= builtin_extractors());
        r
    }

    /// Adds an extractor after those already registered.
    pub fn register(&mut self, extractor: ExtractorKind)
        ensures
            final(self).extractors@ == old(self).extractors@.push(extractor),
    {
        self.extractors.push(extractor);
    }

    /// A fresh registry with the built-in extractors.
    pub fn duplicate(&self) -> (r: ExtractorRegistry)
        ensures
            r.extractors@ == builtin_extractors(),
    {
        Self::new()
    }

    /// The first registered extractor that handles the file.
    pub fn find_extractor(&self, category: FileCategory, mime_type: &str) -> (r: Option<ExtractorKind>)
        ensures
            r == first_handler(self.extractors@, category, mime_type@),
    {
        let mut i: usize = 0;
        assert(self.extractors@.subrange(0, self.extractors@.len() as int) =~= self.extractors@);
        while i < self.extractors.len()
            invariant
                i <= self.extractors@.len(),
                first_handler(self.extractors@, category, mime_type@) == first_handler(
                    self.extractors@.subrange(i as int, self.extractors@.len() as int),
                    category,
                    mime_type@,
                ),
            decreases self.extractors.len() - i,
        {
            let k = self.extractors[i];
            let ghost rest = self.extractors@.subrange(i as int, self.extractors@.len() as int);
            assert(rest[0] == k);
            if k.can_handle(category, mime_type) {
                return Some(k);
            }
            assert(rest.drop_first() =~= self.extractors@.subrange(
                i + 1,
                self.extractors@.len() as int,
            ));
            i = i + 1;
        }
        None
    }

    /// The output when no extractor handles a file: `<mime> file`.
    pub fn fallback(mime_type: &str) -> (r: ExtractorOutput)
        ensures
            r.structured is None,
            r.content is None,
            r.preview@ == mime_type@ + " file"@,
            r.fields@.len() == 0,
    {
        let mut preview = mime_type.to_owned();
        preview.append(" file");
        ExtractorOutput { structured: None, content: None, preview, fields: Vec::new() }
    }
}

/// The preview of a text: the text itself, or its first 497 characters and
/// a line feed and an ellipsis when it is longer than 500 characters.
pub open spec fn text_preview(s: Seq<char>) -> Seq<char> {
    if s.len() > PREVIEW_MAX_CHARS {
        s.subrange(0, PREVIEW_TEXT_KEEP as int) + "\n…"@
    } else {
        s
    }
}

/// The first 500 characters of `s`.
pub open spec fn head_preview(s: Seq<char>) -> Seq<char> {
    if s.len() <= PREVIEW_MAX_CHARS {
        s
    } else {
        s.subrange(0, PREVIEW_MAX_CHARS as int)
    }
}

/// Every preview an extractor produces fits in 500 characters.
pub proof fn lemma_previews_bounded(s: Seq<char>)
    ensures
        text_preview(s).len() <= PREVIEW_MAX_CHARS,
        head_preview(s).len() <= PREVIEW_MAX_CHARS,
{
    reveal_strlit("\n…");
}

fn text_preview_exec(s: &str) -> (r: String)
    ensures
        r@ == text_preview(s@),
{
    let v = chars_of(s);
    if v.len() > PREVIEW_MAX_CHARS {
        let mut head = string_from_chars(vstd::slice::slice_subrange(v.as_slice(), 0, PREVIEW_TEXT_KEEP));
        head.append("\n…");
        head
    } else {
        s.to_owned()
    }
}

/// The first 500 characters of a string.
pub fn head_preview_exec(s: &str) -> (r: String)
    ensures
        r@ == head_preview(s@),
{
    take_chars(s, PREVIEW_MAX_CHARS)
}

fn field(k: &str, v: String) -> (r: (String, String))
    ensures
        r.0@ == k@,
        r.1@ == v@,
{
    (k.to_owned(), v)
}

fn count_text(n: usize) -> (r: String)
    ensures
        r@ == decimal_of(n as nat),
{
    decimal(n as u64)
}

/// Summarises plain text: the full content, line, word and character counts.
pub struct TextExtractor;

impl TextExtractor {
    /// What `summarize` returns for these arguments.
    pub open spec fn summarized(content: String, r: ExtractorOutput) -> bool {
        &&& r.structured is None
        &&& r.content matches Some(c) && c@ == content@
        &&& r.preview@ == text_preview(content@)
        &&& field_views(r.fields@) == seq![
            ("format"@, "text"@),
            ("line_count"@, decimal_of(line_count_of(content@))),
            ("word_count"@, decimal_of(word_count_of(content@))),
            ("char_count"@, decimal_of(content@.len()))
        ]
    }

    pub fn summarize(content: String) -> (r: ExtractorOutput)
        ensures
            Self::summarized(content, r),
    {
        let (lines, words) = text_counts(content.as_str());
        let chars = crate::text::char_count(content.as_str());
        let mut fields: Vec<(String, String)> = Vec::new();
        fields.push(field("format", "text".to_owned()));
        fields.push(field("line_count", count_text(lines)));
        fields.push(field("word_count", count_text(words)));
        fields.push(field("char_count", count_text(chars)));
        let preview = text_preview_exec(content.as_str());
        assert(field_views(fields@) =~= seq![
            ("format"@, "text"@),
            ("line_count"@, decimal_of(line_count_of(content@))),
            ("word_count"@, decimal_of(word_count_of(content@))),
            ("char_count"@, decimal_of(content@.len())),
        ]);
        ExtractorOutput { structured: None, content: Some(content), preview, fields }
    }
}

/// Summarises JSON: sampled paths, depth, object and array counts.
pub struct JsonExtractor;

impl JsonExtractor {
    /// What `summarize` returns for these arguments.
    pub open spec fn summarized(content: String, root: JsonNode, r: ExtractorOutput) -> bool {
        &&& r.structured matches Some(StructuredData::Json { paths, depth, object_count, array_count })
            && views(paths@) == node_paths(root, "$"@, 0) && depth == capped(tree_stats(root).0)
            && object_count == capped(tree_stats(root).1) && array_count == capped(
            tree_stats(root).2
        )
        &&& r.content matches Some(c) && c@ == content@
        &&& r.preview@ == head_preview(content@)
        &&& field_views(r.fields@) == seq![
            ("format"@, "json"@),
            ("depth"@, decimal_of(capped(tree_stats(root).0) as nat)),
            ("object_count"@, decimal_of(capped(tree_stats(root).1) as nat)),
            ("array_count"@, decimal_of(capped(tree_stats(root).2) as nat)),
            ("paths"@, joined(node_paths(root, "$"@, 0).map_values(|p: crate::json::JsonPathView| p.path), " "@))
        ]
    }

    pub fn summarize(content: String, root: &JsonNode) -> (r: ExtractorOutput)
        ensures
            Self::summarized(content, *root, r),
    {
        let paths = extract_paths(root);
        let (depth, object_count, array_count) = analyze(root);
        let mut names: Vec<String> = Vec::new();
        let mut i: usize = 0;
        while i < paths.len()
            invariant
                i <= paths@.len(),
                string_views(names@) == views(paths@).subrange(0, i as int).map_values(
                    |p: crate::json::JsonPathView| p.path,
                ),
            decreases paths.len() - i,
        {
            let ghost before = string_views(names@);
            names.push(paths[i].path.clone());
            assert(views(paths@)[i as int] == paths@[i as int]@);
            assert(string_views(names@) =~= before.push(paths@[i as int].path@));
            assert(string_views(names@) =~= views(paths@).subrange(0, i + 1).map_values(
                |p: crate::json::JsonPathView| p.path,
            ));
            i = i + 1;
        }
        assert(views(paths@).subrange(0, paths@.len() as int) =~= views(paths@));
        let mut fields: Vec<(String, String)> = Vec::new();
        fields.push(field("format", "json".to_owned()));
        fields.push(field("depth", decimal(depth)));
        fields.push(field("object_count", decimal(object_count)));
        fields.push(field("array_count", decimal(array_count)));
        fields.push(field("paths", join_strings(&names, " ")));
        let preview = head_preview_exec(content.as_str());
        assert(field_views(fields@) =~= seq![
            ("format"@, "json"@),
            ("depth"@, decimal_of(capped(tree_stats(*root).0) as nat)),
            ("object_count"@, decimal_of(capped(tree_stats(*root).1) as nat)),
            ("array_count"@, decimal_of(capped(tree_stats(*root).2) as nat)),
            ("paths"@, joined(node_paths(*root, "$"@, 0).map_values(|p: crate::json::JsonPathView| p.path), " "@)),
        ]);
        ExtractorOutput {
            structured: Some(StructuredData::Json { paths, depth, object_count, array_count }),
            content: Some(content),
            preview,
            fields,
        }
    }
}

/// How many times `c` occurs in `s`.
pub open spec fn occurrences(s: Seq<char>, c: char) -> nat
    decreases s.len(),
{
    if s.len() == 0 {
        0
    } else {
        occurrences(s.drop_last(), c) + if s.last() == c {
            1nat
        } else {
            0nat
        }
    }
}

/// The most frequent of `,`, tab, `|` and `;` in a record, ties going to
/// the earlier of them in that order.
pub open spec fn delimiter_of(line: Seq<char>) -> char {
    let a = occurrences(line, ',');
    let b = occurrences(line, '\t');
    let c = occurrences(line, '|');
    let d = occurrences(line, ';');
    if a >= b && a >= c && a >= d {
        ','
    } else if b >= c && b >= d {
        '\t'
    } else if c >= d {
        '|'
    } else {
        ';'
    }
}

/// Rows consulted for type inference.
pub const SCHEMA_SAMPLE_ROWS: usize = 100;

/// The rows of a table as character sequences.
pub open spec fn row_views(rows: Seq<Vec<String>>) -> Seq<Seq<Seq<char>>> {
    rows.map_values(|r: Vec<String>| string_views(r@))
}

/// Row `r` has a non-empty cell in column `i`.
pub open spec fn filled(rows: Seq<Seq<Seq<char>>>, r: int, i: int) -> bool {
    i < rows[r].len() && rows[r][i].len() > 0
}

/// The first hundred rows.
pub open spec fn sampled(rows: Seq<Seq<Seq<char>>>) -> Seq<Seq<Seq<char>>> {
    if rows.len() <= SCHEMA_SAMPLE_ROWS {
        rows
    } else {
        rows.subrange(0, SCHEMA_SAMPLE_ROWS as int)
    }
}

/// The inferred type of column `i` over rows `rows`: `integer` when every
/// non-empty cell parses as an integer (and there is one), else `number`
/// when every non-empty cell parses as a float, else `string`.
pub open spec fn column_type(rows: Seq<Seq<Seq<char>>>, i: int) -> Seq<char> {
    let has = exists|r: int| 0 <= r < rows.len() && #[trigger] filled(rows, r, i);
    let num = forall|r: int| 0 <= r < rows.len() && #[trigger] filled(rows, r, i) ==> is_float_text(rows[r][i]);
    let whole = forall|r: int|
        0 <= r < rows.len() && #[trigger] filled(rows, r, i) ==> is_float_text(rows[r][i]) && is_i64_text(
            rows[r][i],
        );
    if has && whole {
        "integer"@
    } else if has && num {
        "number"@
    } else {
        "string"@
    }
}

/// Summarises CSV: headers, row count, delimiter and per-column types.
pub struct CsvExtractor;

impl CsvExtractor {
    /// The delimiter of a file whose first record is `first_line`.
    pub fn infer_delimiter(first_line: &str) -> (r: char)
        ensures
            r == delimiter_of(first_line@),
    {
        let v = chars_of(first_line);
        let mut a: usize = 0;
        let mut b: usize = 0;
        let mut c: usize = 0;
        let mut d: usize = 0;
        let mut i: usize = 0;
        while i < v.len()
            invariant
                i <= v@.len(),
                a <= i && b <= i && c <= i && d <= i,
                a == occurrences(v@.subrange(0, i as int), ','),
                b == occurrences(v@.subrange(0, i as int), '\t'),
                c == occurrences(v@.subrange(0, i as int), '|'),
                d == occurrences(v@.subrange(0, i as int), ';'),
            decreases v.len() - i,
        {
            let x = v[i];
            assert(v@.subrange(0, i + 1).drop_last() =~= v@.subrange(0, i as int));
            if x == ',' {
                a = a + 1;
            } else if x == '\t' {
                b = b + 1;
            } else if x == '|' {
                c = c + 1;
            } else if x == ';' {
                d = d + 1;
            }
            i = i + 1;
        }
        assert(v@.subrange(0, v@.len() as int) =~= v@);
        if a >= b && a >= c && a >= d {
            ','
        } else if b >= c && b >= d {
            '\t'
        } else if c >= d {
            '|'
        } else {
            ';'
        }
    }

    /// The type of column `i` over `rows`.
    fn column_type_exec(rows: &[Vec<String>], i: usize) -> (r: String)
        ensures
            r@ == column_type(row_views(rows@), i as int),
    {
        let ghost rv = row_views(rows@);
        let mut has = false;
        let mut num = true;
        let mut whole = true;
        let mut r: usize = 0;
        while r < rows.len()
            invariant
                rv == row_views(rows@),
                r <= rows@.len(),
                has == exists|q: int| 0 <= q < r && #[trigger] filled(rv, q, i as int),
                num == forall|q: int|
                    0 <= q < r && #[trigger] filled(rv, q, i as int) ==> is_float_text(rv[q][i as int]),
                whole == forall|q: int|
                    0 <= q < r && #[trigger] filled(rv, q, i as int) ==> is_float_text(rv[q][i as int])
                        && is_i64_text(rv[q][i as int]),
            decreases rows.len() - r,
        {
            assert(rv[r as int] == string_views(rows@[r as int]@));
            let present = i < rows[r].len() && !rows[r][i].as_str().is_empty();
            proof {
                if i < rows@[r as int]@.len() {
                    assert(rv[r as int][i as int] == rows@[r as int]@[i as int]@);
                }
                assert(present == filled(rv, r as int, i as int));
            }
            if present {
                let cell = rows[r][i].as_str();
                assert(rv[r as int][i as int] == cell@);
                has = true;
                if !float_text(cell) {
                    num = false;
                    whole = false;
                } else if !i64_text(cell) {
                    whole = false;
                }
            }
            r = r + 1;
        }
        if has && whole {
            "integer".to_owned()
        } else if has && num {
            "number".to_owned()
        } else {
            "string".to_owned()
        }
    }

    /// One schema entry per header, typed over the first hundred rows.
    pub fn infer_schema(headers: &Vec<String>, rows: &Vec<Vec<String>>) -> (r: Vec<ColumnSchema>)
        ensures
            r@.len() == headers@.len(),
            forall|i: int|
                0 <= i < r@.len() ==> (#[trigger] r@[i]).name@ == headers@[i]@ && r@[i].data_type@
                    == column_type(sampled(row_views(rows@)), i) && r@[i].nullable,
            rows@.len() == 0 ==> forall|i: int| 0 <= i < r@.len() ==> (#[trigger] r@[i]).data_type@ == "string"@,
    {
        let sample = if rows.len() <= SCHEMA_SAMPLE_ROWS {
            rows.as_slice()
        } else {
            vstd::slice::slice_subrange(rows.as_slice(), 0, SCHEMA_SAMPLE_ROWS)
        };
        assert(row_views(sample@) =~= sampled(row_views(rows@)));
        let mut out: Vec<ColumnSchema> = Vec::new();
        let mut i: usize = 0;
        while i < headers.len()
            invariant
                i <= headers@.len(),
                row_views(sample@) == sampled(row_views(rows@)),
                out@.len() == i,
                forall|j: int|
                    0 <= j < i ==> (#[trigger] out@[j]).name@ == headers@[j]@ && out@[j].data_type@
                        == column_type(sampled(row_views(rows@)), j) && out@[j].nullable,
            decreases headers.len() - i,
        {
            let data_type = Self::column_type_exec(sample, i);
            out.push(ColumnSchema { name: headers[i].clone(), data_type, nullable: true });
            i = i + 1;
        }
        proof {
            if rows@.len() == 0 {
                assert forall|j: int| 0 <= j < out@.len() implies (#[trigger] out@[j]).data_type@
                    == "string"@ by {
                    let rv = sampled(row_views(rows@));
                    assert(rv.len() == 0);
                    assert(!exists|q: int| 0 <= q < rv.len() && #[trigger] filled(rv, q, j));
                }
            }
        }
        out
    }

    /// The preview text before truncation.
    pub open spec fn preview_text(headers: Seq<Seq<char>>, row_count: u64) -> Seq<char> {
        "CSV file: "@ + decimal_of(headers.len()) + " columns, "@ + decimal_of(row_count as nat)
            + " rows. Headers: "@ + joined(headers, ", "@)
    }

    /// Summarises a CSV file from its headers, the records after the header
    /// row (at least the first hundred), the total record count and the delimiter.
    /// What `summarize` returns for these arguments.
    pub open spec fn summarized(headers: Vec<String>, rows: Vec<Vec<String>>, row_count: u64, delimiter: char, r: ExtractorOutput) -> bool {
        &&& r.structured matches Some(StructuredData::Csv { headers: h, row_count: n, delimiter: d, schema })
            && string_views(h@) == string_views(headers@) && n == row_count && d == delimiter
            && schema@.len() == headers@.len() && (forall|i: int|
            0 <= i < schema@.len() ==> (#[trigger] schema@[i]).name@ == headers@[i]@
                && schema@[i].data_type@ == column_type(sampled(row_views(rows@)), i)
                && schema@[i].nullable)
        &&& r.content is None
        &&& r.preview@ == head_preview(Self::preview_text(string_views(headers@), row_count))
        &&& field_views(r.fields@) == seq![
            ("format"@, "csv"@),
            ("delimiter"@, seq![delimiter]),
            ("column_count"@, decimal_of(headers@.len())),
            ("row_count"@, decimal_of(row_count as nat)),
            ("columns"@, joined(string_views(headers@), ", "@))
        ]
    }

    pub fn summarize(headers: Vec<String>, rows: &Vec<Vec<String>>, row_count: u64, delimiter: char) -> (r: ExtractorOutput)
        ensures
            Self::summarized(headers, *rows, row_count, delimiter, r),
    {
        let schema = Self::infer_schema(&headers, rows);
        let columns = join_strings(&headers, ", ");
        let ncols = count_text(headers.len());
        let nrows = decimal(row_count);
        let mut text = concat("CSV file: ", ncols.as_str());
        text.append(" columns, ");
        text.append(nrows.as_str());
        text.append(" rows. Headers: ");
        text.append(columns.as_str());
        let preview = head_preview_exec(text.as_str());
        let mut fields: Vec<(String, String)> = Vec::new();
        fields.push(field("format", "csv".to_owned()));
        let dv: Vec<char> = vec![delimiter];
        assert(dv@ =~= seq![delimiter]);
        fields.push(field("delimiter", string_from_chars(dv.as_slice())));
        fields.push(field("column_count", ncols));
        fields.push(field("row_count", nrows));
        fields.push(field("columns", columns));
        assert(field_views(fields@) =~= seq![
            ("format"@, "csv"@),
            ("delimiter"@, seq![delimiter]),
            ("column_count"@, decimal_of(headers@.len())),
            ("row_count"@, decimal_of(row_count as nat)),
            ("columns"@, joined(string_views(headers@), ", "@)),
        ]);
        ExtractorOutput {
            structured: Some(StructuredData::Csv { headers, row_count, delimiter, schema }),
            content: None,
            preview,
            fields,
        }
    }
}

/// Summed row counts.
pub open spec fn table_rows(t: Seq<TableInfo>) -> nat
    decreases t.len(),
{
    if t.len() == 0 {
        0
    } else {
        table_rows(t.drop_last()) + t.last().row_count as nat
    }
}

pub open spec fn table_names(t: Seq<TableInfo>) -> Seq<Seq<char>> {
    t.map_values(|x: TableInfo| x.name@)
}

/// `table.column` for every column of every table, in order.
pub open spec fn column_refs(t: Seq<TableInfo>) -> Seq<Seq<char>>
    decreases t.len(),
{
    if t.len() == 0 {
        seq![]
    } else {
        column_refs(t.drop_last()) + t.last().columns@.map_values(
            |c: crate::schema::ColumnInfo| t.last().name@ + "."@ + c.name@,
        )
    }
}

/// The table names, and `table.column` for every column, in order.
pub fn table_and_column_names(t: &Vec<TableInfo>) -> (r: (Vec<String>, Vec<String>))
    ensures
        string_views(r.0@) == table_names(t@),
        string_views(r.1@) == column_refs(t@),
{
    let mut names: Vec<String> = Vec::new();
    let mut cols: Vec<String> = Vec::new();
    let mut i: usize = 0;
    while i < t.len()
        invariant
            i <= t@.len(),
            string_views(names@) == table_names(t@.subrange(0, i as int)),
            string_views(cols@) == column_refs(t@.subrange(0, i as int)),
        decreases t.len() - i,
    {
        let x = &t[i];
        let ghost pre = t@.subrange(0, i as int);
        let ghost cur = t@.subrange(0, i + 1);
        assert(cur.drop_last() =~= pre);
        let ghost nb = string_views(names@);
        names.push(x.name.clone());
        assert(string_views(names@) =~= nb.push(x.name@));
        assert(table_names(cur) =~= table_names(pre).push(x.name@));
        let ghost before = string_views(cols@);
        let mut j: usize = 0;
        while j < x.columns.len()
            invariant
                j <= x.columns@.len(),
                string_views(cols@) == before + x.columns@.subrange(0, j as int).map_values(
                    |c: crate::schema::ColumnInfo| x.name@ + "."@ + c.name@,
                ),
            decreases x.columns.len() - j,
        {
            let ghost cb = string_views(cols@);
            let mut s = x.name.clone();
            s.append(".");
            s.append(x.columns[j].name.as_str());
            cols.push(s);
            assert(string_views(cols@) =~= cb.push(x.name@ + "."@ + x.columns@[j as int].name@));
            assert(x.columns@.subrange(0, j + 1).map_values(|c: crate::schema::ColumnInfo| x.name@ + "."@ + c.name@)
                =~= x.columns@.subrange(0, j as int).map_values(
                |c: crate::schema::ColumnInfo| x.name@ + "."@ + c.name@,
            ).push(x.name@ + "."@ + x.columns@[j as int].name@));
            j = j + 1;
        }
        assert(x.columns@.subrange(0, x.columns@.len() as int) =~= x.columns@);
        assert(string_views(cols@) =~= column_refs(cur));
        i = i + 1;
    }
    assert(t@.subrange(0, t@.len() as int) =~= t@);
    (names, cols)
}

/// The sheet names, and `sheet.header` for every header, in order.
pub fn sheet_and_header_names(s: &Vec<SheetInfo>) -> (r: (Vec<String>, Vec<String>))
    ensures
        string_views(r.0@) == sheet_names(s@),
        string_views(r.1@) == header_refs(s@),
{
    let mut names: Vec<String> = Vec::new();
    let mut cols: Vec<String> = Vec::new();
    let mut i: usize = 0;
    while i < s.len()
        invariant
            i <= s@.len(),
            string_views(names@) == sheet_names(s@.subrange(0, i as int)),
            string_views(cols@) == header_refs(s@.subrange(0, i as int)),
        decreases s.len() - i,
    {
        let x = &s[i];
        let ghost pre = s@.subrange(0, i as int);
        let ghost cur = s@.subrange(0, i + 1);
        assert(cur.drop_last() =~= pre);
        let ghost nb = string_views(names@);
        names.push(x.name.clone());
        assert(string_views(names@) =~= nb.push(x.name@));
        assert(sheet_names(cur) =~= sheet_names(pre).push(x.name@));
        let ghost before = string_views(cols@);
        let mut j: usize = 0;
        while j < x.headers.len()
            invariant
                j <= x.headers@.len(),
                string_views(cols@) == before + x.headers@.subrange(0, j as int).map_values(
                    |h: String| x.name@ + "."@ + h@,
                ),
            decreases x.headers.len() - j,
        {
            let ghost cb = string_views(cols@);
            let mut t = x.name.clone();
            t.append(".");
            t.append(x.headers[j].as_str());
            cols.push(t);
            assert(string_views(cols@) =~= cb.push(x.name@ + "."@ + x.headers@[j as int]@));
            assert(x.headers@.subrange(0, j + 1).map_values(|h: String| x.name@ + "."@ + h@) =~= x.headers@.subrange(
                0,
                j as int,
            ).map_values(|h: String| x.name@ + "."@ + h@).push(x.name@ + "."@ + x.headers@[j as int]@));
            j = j + 1;
        }
        assert(x.headers@.subrange(0, x.headers@.len() as int) =~= x.headers@);
        assert(string_views(cols@) =~= header_refs(cur));
        i = i + 1;
    }
    assert(s@.subrange(0, s@.len() as int) =~= s@);
    (names, cols)
}

/// Summarises a SQLite database from its table descriptions.
pub struct SqliteExtractor;

impl SqliteExtractor {
    pub open spec fn preview_text(t: Seq<TableInfo>) -> Seq<char> {
        "SQLite database: "@ + decimal_of(t.len()) + " tables, "@ + decimal_of(capped(table_rows(t)) as nat)
            + " total rows. Tables: "@ + joined(table_names(t), ", "@)
    }

    /// What `summarize` returns for these arguments.
    pub open spec fn summarized(tables: Vec<TableInfo>, version: String, page_size: u32, r: ExtractorOutput) -> bool {
        &&& r.structured matches Some(StructuredData::Sqlite { tables: ts, total_rows, page_size: ps, version: v })
            && ts@ == tables@ && total_rows == capped(table_rows(tables@)) && ps == page_size && v@
            == version@
        &&& r.content is None
        &&& r.preview@ == head_preview(Self::preview_text(tables@))
        &&& field_views(r.fields@) == seq![
            ("database_type"@, "sqlite"@),
            ("version"@, version@),
            ("table_count"@, decimal_of(tables@.len())),
            ("total_rows"@, decimal_of(capped(table_rows(tables@)) as nat)),
            ("tables"@, joined(table_names(tables@), " "@)),
            ("columns"@, joined(column_refs(tables@), " "@))
        ]
    }

    pub fn summarize(tables: Vec<TableInfo>, version: String, page_size: u32) -> (r: ExtractorOutput)
        ensures
            Self::summarized(tables, version, page_size, r),
    {
        let mut total: u64 = 0;
        let mut i: usize = 0;
        while i < tables.len()
            invariant
                i <= tables@.len(),
                total == capped(table_rows(tables@.subrange(0, i as int))),
            decreases tables.len() - i,
        {
            assert(tables@.subrange(0, i + 1).drop_last() =~= tables@.subrange(0, i as int));
            total = total.saturating_add(tables[i].row_count);
            i = i + 1;
        }
        assert(tables@.subrange(0, tables@.len() as int) =~= tables@);
        let (names, cols) = table_and_column_names(&tables);
        let count = count_text(tables.len());
        let rows = decimal(total);
        let mut text = concat("SQLite database: ", count.as_str());
        text.append(" tables, ");
        text.append(rows.as_str());
        text.append(" total rows. Tables: ");
        let listed = join_strings(&names, ", ");
        text.append(listed.as_str());
        let preview = head_preview_exec(text.as_str());
        let mut fields: Vec<(String, String)> = Vec::new();
        fields.push(field("database_type", "sqlite".to_owned()));
        fields.push(field("version", version.clone()));
        fields.push(field("table_count", count));
        fields.push(field("total_rows", rows));
        fields.push(field("tables", join_strings(&names, " ")));
        fields.push(field("columns", join_strings(&cols, " ")));
        assert(field_views(fields@) =~= seq![
            ("database_type"@, "sqlite"@),
            ("version"@, version@),
            ("table_count"@, decimal_of(tables@.len())),
            ("total_rows"@, decimal_of(capped(table_rows(tables@)) as nat)),
            ("tables"@, joined(table_names(tables@), " "@)),
            ("columns"@, joined(column_refs(tables@), " "@)),
        ]);
        ExtractorOutput {
            structured: Some(StructuredData::Sqlite { tables, total_rows: total, page_size, version }),
            content: None,
            preview,
            fields,
        }
    }
}

/// Summed sheet row counts.
pub open spec fn sheet_rows(s: Seq<SheetInfo>) -> nat
    decreases s.len(),
{
    if s.len() == 0 {
        0
    } else {
        sheet_rows(s.drop_last()) + s.last().row_count as nat
    }
}

pub open spec fn sheet_names(s: Seq<SheetInfo>) -> Seq<Seq<char>> {
    s.map_values(|x: SheetInfo| x.name@)
}

/// `sheet.header` for every header of every sheet, in order.
pub open spec fn header_refs(s: Seq<SheetInfo>) -> Seq<Seq<char>>
    decreases s.len(),
{
    if s.len() == 0 {
        seq![]
    } else {
        header_refs(s.drop_last()) + s.last().headers@.map_values(|h: String| s.last().name@ + "."@ + h@)
    }
}

/// Summarises a workbook from its sheet descriptions.
pub struct ExcelExtractor;

impl ExcelExtractor {
    pub open spec fn preview_text(s: Seq<SheetInfo>) -> Seq<char> {
        "Excel workbook: "@ + decimal_of(s.len()) + " sheets, "@ + decimal_of(capped(sheet_rows(s)) as nat)
            + " total rows. Sheets: "@ + joined(sheet_names(s), ", "@)
    }

    /// What `summarize` returns for these arguments.
    pub open spec fn summarized(sheets: Vec<SheetInfo>, r: ExtractorOutput) -> bool {
        &&& r.structured matches Some(StructuredData::Excel { sheets: ss, total_rows }) && ss@ == sheets@
            && total_rows == capped(sheet_rows(sheets@))
        &&& r.content is None
        &&& r.preview@ == head_preview(Self::preview_text(sheets@))
        &&& field_views(r.fields@) == seq![
            ("format"@, "excel"@),
            ("sheet_count"@, decimal_of(sheets@.len())),
            ("total_rows"@, decimal_of(capped(sheet_rows(sheets@)) as nat)),
            ("sheets"@, joined(sheet_names(sheets@), ", "@)),
            ("columns"@, joined(header_refs(sheets@), ", "@))
        ]
    }

    pub fn summarize(sheets: Vec<SheetInfo>) -> (r: ExtractorOutput)
        ensures
            Self::summarized(sheets, r),
    {
        let mut total: u64 = 0;
        let mut i: usize = 0;
        while i < sheets.len()
            invariant
                i <= sheets@.len(),
                total == capped(sheet_rows(sheets@.subrange(0, i as int))),
            decreases sheets.len() - i,
        {
            assert(sheets@.subrange(0, i + 1).drop_last() =~= sheets@.subrange(0, i as int));
            total = total.saturating_add(sheets[i].row_count);
            i = i + 1;
        }
        assert(sheets@.subrange(0, sheets@.len() as int) =~= sheets@);
        let (names, cols) = sheet_and_header_names(&sheets);
        let count = count_text(sheets.len());
        let rows = decimal(total);
        let listed = join_strings(&names, ", ");
        let mut text = concat("Excel workbook: ", count.as_str());
        text.append(" sheets, ");
        text.append(rows.as_str());
        text.append(" total rows. Sheets: ");
        text.append(listed.as_str());
        let preview = head_preview_exec(text.as_str());
        let mut fields: Vec<(String, String)> = Vec::new();
        fields.push(field("format", "excel".to_owned()));
        fields.push(field("sheet_count", count));
        fields.push(field("total_rows", rows));
        fields.push(field("sheets", listed));
        fields.push(field("columns", join_strings(&cols, ", ")));
        assert(field_views(fields@) =~= seq![
            ("format"@, "excel"@),
            ("sheet_count"@, decimal_of(sheets@.len())),
            ("total_rows"@, decimal_of(capped(sheet_rows(sheets@)) as nat)),
            ("sheets"@, joined(sheet_names(sheets@), ", "@)),
            ("columns"@, joined(header_refs(sheets@), ", "@)),
        ]);
        ExtractorOutput {
            structured: Some(StructuredData::Excel { sheets, total_rows: total }),
            content: None,
            preview,
            fields,
        }
    }
}

/// The distinct strings of `s`, each where it first occurs.
pub open spec fn distinct_in_order(s: Seq<Seq<char>>) -> Seq<Seq<char>>
    decreases s.len(),
{
    if s.len() == 0 {
        seq![]
    } else if distinct_in_order(s.drop_last()).contains(s.last()) {
        distinct_in_order(s.drop_last())
    } else {
        distinct_in_order(s.drop_last()).push(s.last())
    }
}

/// One event of a streaming XML parse: an element (start or empty tag)
/// with its name and attributes, or anything else.
#[derive(Debug)]
pub enum XmlEvent {
    Element { name: String, attributes: Vec<(String, String)> },
    Other,
}

/// The names of the elements, in document order.
pub open spec fn element_names(ev: Seq<XmlEvent>) -> Seq<Seq<char>>
    decreases ev.len(),
{
    if ev.len() == 0 {
        seq![]
    } else {
        let rest = element_names(ev.drop_last());
        match ev.last() {
            XmlEvent::Element { name, .. } => rest.push(name@),
            XmlEvent::Other => rest,
        }
    }
}

/// The values of the attributes whose key begins with `xmlns`, in order.
pub open spec fn xmlns_in(attrs: Seq<(String, String)>) -> Seq<Seq<char>>
    decreases attrs.len(),
{
    if attrs.len() == 0 {
        seq![]
    } else {
        let rest = xmlns_in(attrs.drop_last());
        if crate::text::starts_with(attrs.last().0@, "xmlns"@) {
            rest.push(attrs.last().1@)
        } else {
            rest
        }
    }
}

/// The `xmlns` attribute values of all elements, in document order.
pub open spec fn xmlns_values(ev: Seq<XmlEvent>) -> Seq<Seq<char>>
    decreases ev.len(),
{
    if ev.len() == 0 {
        seq![]
    } else {
        let rest = xmlns_values(ev.drop_last());
        match ev.last() {
            XmlEvent::Element { attributes, .. } => rest + xmlns_in(attributes@),
            XmlEvent::Other => rest,
        }
    }
}

/// The name of the first element, or the empty name when there is none.
pub open spec fn root_of(ev: Seq<XmlEvent>) -> Seq<char> {
    if element_names(ev).len() > 0 {
        element_names(ev)[0]
    } else {
        Seq::empty()
    }
}

/// Summarises XML from its parse events.
pub struct XmlExtractor;

impl XmlExtractor {
    /// Summarises an XML document from its text and its parse events: the
    /// first element is the root, elements are counted, and the values of
    /// `xmlns` attributes are kept once each, in order.
    pub fn summarize_events(content: String, events: &Vec<XmlEvent>) -> (r: ExtractorOutput)
        ensures
            Self::summarized(content, *events, r),
    {
        let ghost ev = events@;
        let mut root = String::new();
        let mut count: u64 = 0;
        let mut raw: Vec<String> = Vec::new();
        let mut i: usize = 0;
        while i < events.len()
            invariant
                ev == events@,
                i <= ev.len(),
                root@ == root_of(ev.subrange(0, i as int)),
                count == capped(element_names(ev.subrange(0, i as int)).len()),
                string_views(raw@) == xmlns_values(ev.subrange(0, i as int)),
            decreases events.len() - i,
        {
            let ghost pre = ev.subrange(0, i as int);
            let ghost cur = ev.subrange(0, i + 1);
            assert(cur.drop_last() =~= pre);
            match &events[i] {
                XmlEvent::Element { name, attributes } => {
                    if count == 0 {
                        root = name.clone();
                    }
                    proof {
                        if element_names(pre).len() > 0 {
                            assert(element_names(cur)[0] == element_names(pre)[0]);
                        }
                    }
                    count = count.saturating_add(1);
                    let ghost before = string_views(raw@);
                    let mut j: usize = 0;
                    while j < attributes.len()
                        invariant
                            j <= attributes@.len(),
                            string_views(raw@) == before + xmlns_in(attributes@.subrange(0, j as int)),
                        decreases attributes.len() - j,
                    {
                        let ghost ab = attributes@.subrange(0, j + 1);
                        assert(ab.drop_last() =~= attributes@.subrange(0, j as int));
                        let key = chars_of(attributes[j].0.as_str());
                        if crate::text::starts_with_text(key.as_slice(), "xmlns") {
                            let ghost rb = string_views(raw@);
                            raw.push(attributes[j].1.clone());
                            assert(string_views(raw@) =~= rb.push(attributes@[j as int].1@));
                        }
                        assert(string_views(raw@) =~= before + xmlns_in(ab));
                        j = j + 1;
                    }
                    assert(attributes@.subrange(0, attributes@.len() as int) =~= attributes@);
                },
                XmlEvent::Other => {},
            }
            i = i + 1;
        }
        assert(ev.subrange(0, ev.len() as int) =~= ev);
        Self::from_parts(content, root, &raw, count)
    }

    /// What `summarize_events` returns for this text and these events.
    pub open spec fn summarized(content: String, events: Vec<XmlEvent>, r: ExtractorOutput) -> bool {
        Self::from_parts_spec(
            content,
            root_of(events@),
            xmlns_values(events@),
            capped(element_names(events@).len()),
            r,
        )
    }

    pub open spec fn from_parts_spec(
        content: String,
        root_element: Seq<char>,
        namespaces: Seq<Seq<char>>,
        element_count: u64,
        r: ExtractorOutput,
    ) -> bool {
        &&& r.structured matches Some(StructuredData::Xml { root_element: re, namespaces: ns, element_count: n })
            && re@ == root_element && string_views(ns@) == distinct_in_order(namespaces) && n
            == element_count
        &&& r.content matches Some(c) && c@ == content@
        &&& r.preview@ == head_preview(content@)
        &&& field_views(r.fields@) == seq![
            ("format"@, "xml"@),
            ("root_element"@, root_element),
            ("element_count"@, decimal_of(element_count as nat)),
            ("namespaces"@, joined(distinct_in_order(namespaces), ", "@)),
        ]
    }

    fn from_parts(content: String, root_element: String, namespaces: &Vec<String>, element_count: u64) -> (r:
        ExtractorOutput)
        ensures
            Self::from_parts_spec(content, root_element@, string_views(namespaces@), element_count, r),
    {
        let mut ns: Vec<String> = Vec::new();
        let mut i: usize = 0;
        while i < namespaces.len()
            invariant
                i <= namespaces@.len(),
                string_views(ns@) == distinct_in_order(string_views(namespaces@).subrange(0, i as int)),
            decreases namespaces.len() - i,
        {
            let ghost cur = string_views(namespaces@).subrange(0, i + 1);
            assert(cur.drop_last() =~= string_views(namespaces@).subrange(0, i as int));
            if !crate::archive::contains_string(&ns, namespaces[i].as_str()) {
                let ghost nb = string_views(ns@);
                ns.push(namespaces[i].clone());
                assert(string_views(ns@) =~= nb.push(namespaces@[i as int]@));
            }
            i = i + 1;
        }
        assert(string_views(namespaces@).subrange(0, namespaces@.len() as int) =~= string_views(namespaces@));
        let mut fields: Vec<(String, String)> = Vec::new();
        fields.push(field("format", "xml".to_owned()));
        fields.push(field("root_element", root_element.clone()));
        fields.push(field("element_count", decimal(element_count)));
        fields.push(field("namespaces", join_strings(&ns, ", ")));
        let preview = head_preview_exec(content.as_str());
        assert(field_views(fields@) =~= seq![
            ("format"@, "xml"@),
            ("root_element"@, root_element@),
            ("element_count"@, decimal_of(element_count as nat)),
            ("namespaces"@, joined(distinct_in_order(string_views(namespaces@)), ", "@)),
        ]);
        ExtractorOutput {
            structured: Some(StructuredData::Xml { root_element, namespaces: ns, element_count }),
            content: Some(content),
            preview,
            fields,
        }
    }
}

/// Bytes assumed per key when estimating key counts from file sizes.
pub const BYTES_PER_KEY: u64 = 100;

/// Summarises a LevelDB directory from the summed size of its files.
pub struct LevelDbExtractor;

impl LevelDbExtractor {
    /// Whether a directory holding entries named `names` is a LevelDB
    /// directory: it has `CURRENT`, `LOCK` or `MANIFEST-000001`.
    pub fn is_leveldb_directory(names: &Vec<String>) -> (r: bool)
        ensures
            r == (string_views(names@).contains("CURRENT"@) || string_views(names@).contains("LOCK"@)
                || string_views(names@).contains("MANIFEST-000001"@)),
    {
        crate::archive::contains_string(names, "CURRENT") || crate::archive::contains_string(names, "LOCK")
            || crate::archive::contains_string(names, "MANIFEST-000001")
    }

    pub open spec fn preview_text(total_size: u64) -> Seq<char> {
        "LevelDB database: ~"@ + decimal_of((total_size / BYTES_PER_KEY) as nat) + " keys, ~"@
            + decimal_of(total_size as nat) + " bytes"@
    }

    /// What `summarize` returns for these arguments.
    pub open spec fn summarized(total_size: u64, r: ExtractorOutput) -> bool {
        &&& r.structured == Some(
            StructuredData::LevelDb { key_count: total_size / BYTES_PER_KEY, approximate_size: total_size }
        )
        &&& r.content is None
        &&& r.preview@ == head_preview(Self::preview_text(total_size))
        &&& field_views(r.fields@) == seq![
            ("database_type"@, "leveldb"@),
            ("key_count"@, decimal_of((total_size / BYTES_PER_KEY) as nat)),
            ("approximate_size"@, decimal_of(total_size as nat))
        ]
    }

    pub fn summarize(total_size: u64) -> (r: ExtractorOutput)
        ensures
            Self::summarized(total_size, r),
    {
        let key_count = total_size / BYTES_PER_KEY;
        let k = decimal(key_count);
        let s = decimal(total_size);
        let mut text = concat("LevelDB database: ~", k.as_str());
        text.append(" keys, ~");
        text.append(s.as_str());
        text.append(" bytes");
        let preview = head_preview_exec(text.as_str());
        let mut fields: Vec<(String, String)> = Vec::new();
        fields.push(field("database_type", "leveldb".to_owned()));
        fields.push(field("key_count", k));
        fields.push(field("approximate_size", s));
        assert(field_views(fields@) =~= seq![
            ("database_type"@, "leveldb"@),
            ("key_count"@, decimal_of((total_size / BYTES_PER_KEY) as nat)),
            ("approximate_size"@, decimal_of(total_size as nat)),
        ]);
        ExtractorOutput {
            structured: Some(StructuredData::LevelDb { key_count, approximate_size: total_size }),
            content: None,
            preview,
            fields,
        }
    }
}

/// The length of the first `c`-separated segment of `s`.
pub open spec fn segment_len(s: Seq<char>, c: char) -> nat
    decreases s.len(),
{
    if s.len() == 0 || s[0] == c {
        0
    } else {
        1 + segment_len(s.drop_first(), c)
    }
}

/// The `n`-th segment of `s` split at `c` (as `str::split(c).nth(n)`).
pub open spec fn nth_segment(s: Seq<char>, c: char, n: nat) -> Option<Seq<char>>
    decreases s.len(), n,
{
    let k = segment_len(s, c) as int;
    if n == 0 {
        Some(s.subrange(0, k))
    } else if k >= s.len() {
        None
    } else {
        nth_segment(s.subrange(k + 1, s.len() as int), c, (n - 1) as nat)
    }
}

/// A segment that runs to the first separator (or to the end) has that length.
pub proof fn lemma_segment_len(s: Seq<char>, c: char, m: int)
    requires
        0 <= m <= s.len(),
        forall|j: int| 0 <= j < m ==> s[j] != c,
        m == s.len() || s[m] == c,
    ensures
        segment_len(s, c) == m,
    decreases m,
{
    if m > 0 {
        lemma_segment_len(s.drop_first(), c, m - 1);
    }
}

/// The name an IndexedDB key carries: the text before `@`, or for a key
/// starting `db-` the fourth `-`-separated part.
pub open spec fn database_name_of(key: Seq<char>) -> Option<Seq<char>> {
    if segment_len(key, '@') < key.len() {
        Some(key.subrange(0, segment_len(key, '@') as int))
    } else if crate::text::starts_with(key, "db-"@) {
        nth_segment(key, '-', 3)
    } else {
        None
    }
}

/// Summarises an IndexedDB directory from its database names and key estimate.
pub struct IndexedDbExtractor;

impl IndexedDbExtractor {
    fn segment_end(v: &[char], from: usize, c: char) -> (r: usize)
        requires
            from <= v@.len(),
        ensures
            from <= r <= v@.len(),
            r - from == segment_len(v@.subrange(from as int, v@.len() as int), c),
    {
        let mut k: usize = from;
        while k < v.len() && v[k] != c
            invariant
                from <= k <= v@.len(),
                forall|j: int| from <= j < k ==> v@[j] != c,
            decreases v.len() - k,
        {
            k = k + 1;
        }
        proof {
            let s = v@.subrange(from as int, v@.len() as int);
            assert forall|j: int| 0 <= j < k - from implies s[j] != c by {
                assert(s[j] == v@[from + j]);
            }
            lemma_segment_len(s, c, (k - from) as int);
        }
        k
    }

    /// The database name carried by an IndexedDB key.
    pub fn parse_database_name(key: &str) -> (r: Option<String>)
        ensures
            match r {
                Some(s) => database_name_of(key@) == Some(s@),
                None => database_name_of(key@) is None,
            },
    {
        let v = chars_of(key);
        let at = Self::segment_end(v.as_slice(), 0, '@');
        assert(v@.subrange(0, v@.len() as int) =~= v@);
        if at < v.len() {
            return Some(string_from_chars(vstd::slice::slice_subrange(v.as_slice(), 0, at)));
        }
        if !crate::text::starts_with_text(v.as_slice(), "db-") {
            return None;
        }
        let mut from: usize = 0;
        let mut n: usize = 3;
        assert(database_name_of(key@) == nth_segment(key@, '-', 3));
        loop
            invariant
                database_name_of(key@) == nth_segment(key@, '-', 3),
                from <= v@.len(),
                n <= 3,
                nth_segment(key@, '-', 3) == nth_segment(v@.subrange(from as int, v@.len() as int), '-', n as nat),
                v@ == key@,
            decreases n,
        {
            let end = Self::segment_end(v.as_slice(), from, '-');
            let ghost s = v@.subrange(from as int, v@.len() as int);
            if n == 0 {
                assert(s.subrange(0, (end - from) as int) =~= v@.subrange(from as int, end as int));
                return Some(string_from_chars(vstd::slice::slice_subrange(v.as_slice(), from, end)));
            }
            if end >= v.len() {
                return None;
            }
            assert(s.subrange((end - from) + 1, s.len() as int) =~= v@.subrange(end + 1, v@.len() as int));
            from = end + 1;
            n = n - 1;
        }
    }

    pub open spec fn preview_text(databases: Seq<Seq<char>>, total_keys: u64) -> Seq<char> {
        "Chrome IndexedDB: "@ + decimal_of(databases.len()) + " databases ("@ + joined(databases, ", "@)
            + "), ~"@ + decimal_of(total_keys as nat) + " records"@
    }

    /// What `summarize` returns for these arguments.
    pub open spec fn summarized(databases: Vec<String>, total_keys: u64, r: ExtractorOutput) -> bool {
        &&& r.structured matches Some(StructuredData::Sqlite { tables, total_rows, page_size, version })
            && tables@.len() == 0 && total_rows == total_keys && page_size == 0 && version@
            == "IndexedDB"@
        &&& r.content is None
        &&& r.preview@ == head_preview(Self::preview_text(string_views(databases@), total_keys))
        &&& field_views(r.fields@) == seq![
            ("database_type"@, "indexeddb"@),
            ("databases"@, joined(string_views(databases@), ", "@)),
            ("database_count"@, decimal_of(databases@.len())),
            ("total_keys"@, decimal_of(total_keys as nat))
        ]
    }

    pub fn summarize(databases: Vec<String>, total_keys: u64) -> (r: ExtractorOutput)
        ensures
            Self::summarized(databases, total_keys, r),
    {
        let listed = join_strings(&databases, ", ");
        let count = count_text(databases.len());
        let keys = decimal(total_keys);
        let mut text = concat("Chrome IndexedDB: ", count.as_str());
        text.append(" databases (");
        text.append(listed.as_str());
        text.append("), ~");
        text.append(keys.as_str());
        text.append(" records");
        let preview = head_preview_exec(text.as_str());
        let mut fields: Vec<(String, String)> = Vec::new();
        fields.push(field("database_type", "indexeddb".to_owned()));
        fields.push(field("databases", listed));
        fields.push(field("database_count", count));
        fields.push(field("total_keys", keys));
        assert(field_views(fields@) =~= seq![
            ("database_type"@, "indexeddb"@),
            ("databases"@, joined(string_views(databases@), ", "@)),
            ("database_count"@, decimal_of(databases@.len())),
            ("total_keys"@, decimal_of(total_keys as nat)),
        ]);
        ExtractorOutput {
            structured: Some(
                StructuredData::Sqlite {
                    tables: Vec::new(),
                    total_rows: total_keys,
                    page_size: 0,
                    version: "IndexedDB".to_owned(),
                },
            ),
            content: None,
            preview,
            fields,
        }
    }
}

/// What the file reading and parsing found, per format, for the extractor
/// that the registry selects.
#[derive(Debug)]
pub enum ExtractorInput {
    Sqlite { tables: Vec<TableInfo>, version: String, page_size: u32 },
    Json { content: String, root: JsonNode },
    Csv { headers: Vec<String>, rows: Vec<Vec<String>>, row_count: u64, delimiter: char },
    Excel { sheets: Vec<SheetInfo> },
    Xml { content: String, events: Vec<XmlEvent> },
    Text { content: String },
    LevelDb { total_size: u64 },
    IndexedDb { databases: Vec<String>, total_keys: u64 },
}

/// The extractor an input is for.
pub open spec fn input_kind(i: ExtractorInput) -> ExtractorKind {
    match i {
        ExtractorInput::Sqlite { .. } => ExtractorKind::Sqlite,
        ExtractorInput::Json { .. } => ExtractorKind::Json,
        ExtractorInput::Csv { .. } => ExtractorKind::Csv,
        ExtractorInput::Excel { .. } => ExtractorKind::Excel,
        ExtractorInput::Xml { .. } => ExtractorKind::Xml,
        ExtractorInput::Text { .. } => ExtractorKind::Text,
        ExtractorInput::LevelDb { .. } => ExtractorKind::LevelDb,
        ExtractorInput::IndexedDb { .. } => ExtractorKind::IndexedDb,
    }
}

/// `o` is what the extractor for input `i` makes of it.
pub open spec fn summary_of(i: ExtractorInput, o: ExtractorOutput) -> bool {
    match i {
        ExtractorInput::Sqlite { tables, version, page_size } => SqliteExtractor::summarized(
            tables,
            version,
            page_size,
            o,
        ),
        ExtractorInput::Json { content, root } => JsonExtractor::summarized(content, root, o),
        ExtractorInput::Csv { headers, rows, row_count, delimiter } => CsvExtractor::summarized(
            headers,
            rows,
            row_count,
            delimiter,
            o,
        ),
        ExtractorInput::Excel { sheets } => ExcelExtractor::summarized(sheets, o),
        ExtractorInput::Xml { content, events } => XmlExtractor::summarized(content, events, o),
        ExtractorInput::Text { content } => TextExtractor::summarized(content, o),
        ExtractorInput::LevelDb { total_size } => LevelDbExtractor::summarized(total_size, o),
        ExtractorInput::IndexedDb { databases, total_keys } => IndexedDbExtractor::summarized(
            databases,
            total_keys,
            o,
        ),
    }
}

/// Why `ExtractorRegistry::extract` produced nothing.
#[derive(Debug, Clone, Copy, PartialEq, Eq, Structural)]
pub enum ExtractError {
    /// The selected extractor needs a different input.
    WrongInput { expected: ExtractorKind },
}

impl ExtractorRegistry {
    /// Runs the extractor selected for the file's category and MIME type on
    /// `input`; with no extractor selected, the output is `<mime> file`.
    pub fn extract(&self, category: FileCategory, mime_type: &str, input: Option<ExtractorInput>) -> (r:
        Result<ExtractorOutput, ExtractError>)
        ensures
            match first_handler(self.extractors@, category, mime_type@) {
                None => (r matches Ok(o) && o.structured is None && o.content is None && o.preview@
                    == mime_type@ + " file"@ && o.fields@.len() == 0),
                Some(k) => if input matches Some(i) && input_kind(i) == k {
                    r matches Ok(o) && summary_of(input->0, o) && o.preview@.len() <= PREVIEW_MAX_CHARS
                } else {
                    r == Err::<ExtractorOutput, ExtractError>(ExtractError::WrongInput { expected: k })
                },
            },
    {
        let kind = match self.find_extractor(category, mime_type) {
            None => return Ok(Self::fallback(mime_type)),
            Some(k) => k,
        };
        let input = match input {
            Some(i) => i,
            None => return Err(ExtractError::WrongInput { expected: kind }),
        };
        proof {
            assert forall|s: Seq<char>| #[trigger] head_preview(s).len() <= PREVIEW_MAX_CHARS by {
                lemma_previews_bounded(s);
            }
            assert forall|s: Seq<char>| #[trigger] text_preview(s).len() <= PREVIEW_MAX_CHARS by {
                lemma_previews_bounded(s);
            }
        }
        match (kind, input) {
            (ExtractorKind::Sqlite, ExtractorInput::Sqlite { tables, version, page_size }) => Ok(
                SqliteExtractor::summarize(tables, version, page_size),
            ),
            (ExtractorKind::Json, ExtractorInput::Json { content, root }) => Ok(
                JsonExtractor::summarize(content, &root),
            ),
            (ExtractorKind::Csv, ExtractorInput::Csv { headers, rows, row_count, delimiter }) => Ok(
                CsvExtractor::summarize(headers, &rows, row_count, delimiter),
            ),
            (ExtractorKind::Excel, ExtractorInput::Excel { sheets }) => Ok(ExcelExtractor::summarize(sheets)),
            (ExtractorKind::Xml, ExtractorInput::Xml { content, events }) => Ok(
                XmlExtractor::summarize_events(content, &events),
            ),
            (ExtractorKind::Text, ExtractorInput::Text { content }) => Ok(TextExtractor::summarize(content)),
            (ExtractorKind::LevelDb, ExtractorInput::LevelDb { total_size }) => Ok(
                LevelDbExtractor::summarize(total_size),
            ),
            (ExtractorKind::IndexedDb, ExtractorInput::IndexedDb { databases, total_keys }) => Ok(
                IndexedDbExtractor::summarize(databases, total_keys),
            ),
            _ => Err(ExtractError::WrongInput { expected: kind }),
        }
    }
}

impl IndexedDbExtractor {
    /// Whether a directory is an IndexedDB store, from its entries' names:
    /// it has `IndexedDB.leveldb`, an entry with extension `indexeddb`, or
    /// `blob_storage`.
    pub fn is_indexeddb_directory(names: &Vec<String>) -> (r: bool)
        ensures
            r == (string_views(names@).contains("IndexedDB.leveldb"@) || (exists|i: int|
                0 <= i < names@.len() && crate::paths::path_extension(#[trigger] names@[i]@) == Some(
                    "indexeddb"@,
                )) || string_views(names@).contains("blob_storage"@)),
    {
        if crate::archive::contains_string(names, "IndexedDB.leveldb") {
            return true;
        }
        let mut i: usize = 0;
        while i < names.len()
            invariant
                i <= names@.len(),
                forall|j: int|
                    0 <= j < i ==> crate::paths::path_extension(#[trigger] names@[j]@) != Some("indexeddb"@),
            decreases names.len() - i,
        {
            if let Some(e) = crate::paths::extension(names[i].as_str()) {
                if crate::text::same_text(e.as_str(), "indexeddb") {
                    return true;
                }
            }
            i = i + 1;
        }
        crate::archive::contains_string(names, "blob_storage")
    }
}

} // verus!
