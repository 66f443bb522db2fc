//! Content-based file type detection: magic signatures first, then
//! structural and textual heuristics over the first bytes of a file.

use vstd::prelude::*;
use vstd::utf8::{decode_utf8, valid_utf8};
use crate::magic::{
    sqlite_magic,
    sqlite_magic_bytes,
    leveldb_magic,
    leveldb_magic_bytes,
    zip_magic,
    zip_magic_bytes,
    content_types_name,
    content_types_name_bytes,
    xl_dir,
    xl_dir_bytes,
    word_dir,
    word_dir_bytes,
    pdf_magic,
    pdf_magic_bytes,
    parquet_magic,
    parquet_magic_bytes,
    png_magic,
    png_magic_bytes,
    jpeg_magic,
    jpeg_magic_bytes,
    gif87_magic,
    gif87_magic_bytes,
    gif89_magic,
    gif89_magic_bytes,
    riff_magic,
    riff_magic_bytes,
    webp_tag,
    webp_tag_bytes,
    elf_magic,
    elf_magic_bytes,
    macho32_magic,
    macho32_magic_bytes,
    macho64_magic,
    macho64_magic_bytes,
    fat_magic,
    fat_magic_bytes,
    mz_magic,
    mz_magic_bytes,
};
use crate::digest::{hex_encode, hex_of};
use crate::schema::{FileCategory, category_of_mime};
use crate::text::{first_non_ws_char, first_non_ws_char_exec, utf8_string, contains_bytes, contains_seq, starts_with, starts_with_bytes};

verus! {

/// Number of leading bytes the detector inspects.
pub const DETECT_PREFIX_LEN: usize = 512;

/// Number of leading bytes inspected by the XML check.
pub const XML_PREFIX_LEN: usize = 100;

/// Number of leading bytes inspected by the CSV heuristic.
pub const CSV_PREFIX_LEN: usize = 1024;

/// Number of lines inspected by the CSV heuristic.
pub const CSV_MAX_LINES: usize = 5;

pub const LF: u8 = 0x0a;

pub const COMMA: u8 = 0x2c;

pub const TAB: u8 = 0x09;

/// ASCII whitespace as `u8::is_ascii_whitespace` defines it.
pub open spec fn is_ascii_ws(b: u8) -> bool {
    b == 0x20 || b == 0x09 || b == 0x0a || b == 0x0c || b == 0x0d
}

/// A graphic ASCII character or ASCII whitespace.
pub open spec fn is_printable(b: u8) -> bool {
    (0x21 <= b && b <= 0x7e) || is_ascii_ws(b)
}

/// The first byte of `b` that is not ASCII whitespace is `c`.
pub open spec fn first_non_ws_is(b: Seq<u8>, c: u8) -> bool {
    exists|k: int|
        0 <= k < b.len() && b[k] == c && (forall|j: int| 0 <= j < k ==> is_ascii_ws(#[trigger] b[j]))
}

/// The first `n` bytes of `b`, or all of it when shorter.
pub open spec fn prefix(b: Seq<u8>, n: int) -> Seq<u8> {
    if b.len() <= n {
        b
    } else {
        b.subrange(0, n)
    }
}

/// How many times `c` occurs in `s`.
pub open spec fn count_of(s: Seq<u8>, c: u8) -> nat
    decreases s.len(),
{
    if s.len() == 0 {
        0
    } else {
        count_of(s.drop_last(), c) + if s.last() == c {
            1nat
        } else {
            0nat
        }
    }
}

/// How many bytes of `s` are printable.
pub open spec fn printable_count(s: Seq<u8>) -> nat
    decreases s.len(),
{
    if s.len() == 0 {
        0
    } else {
        printable_count(s.drop_last()) + if is_printable(s.last()) {
            1nat
        } else {
            0nat
        }
    }
}

/// Length of the first line of `s`: the bytes before the first line feed.
pub open spec fn line_len(s: Seq<u8>) -> nat
    decreases s.len(),
{
    if s.len() == 0 || s[0] == LF {
        0
    } else {
        1 + line_len(s.drop_first())
    }
}

/// The lines of `s` as `str::lines` yields them, ignoring carriage returns
/// (which the heuristic never counts): split at line feeds, with no empty
/// line after a final line feed.
pub open spec fn split_lines(s: Seq<u8>) -> Seq<Seq<u8>>
    decreases s.len(),
{
    if s.len() == 0 {
        seq![]
    } else {
        let k = line_len(s) as int;
        if k < s.len() {
            seq![s.subrange(0, k)] + split_lines(s.subrange(k + 1, s.len() as int))
        } else {
            seq![s]
        }
    }
}

/// `n` is zero or within one of `first`.
pub open spec fn close_count(n: nat, first: nat) -> bool {
    n == 0 || (n <= first + 1 && first <= n + 1)
}

/// The CSV decision over the inspected lines.
pub open spec fn csv_lines_agree(ls: Seq<Seq<u8>>) -> bool {
    ls.len() >= 2 && if count_of(ls[0], COMMA) >= 1 {
        forall|i: int|
            1 <= i < ls.len() ==> close_count(count_of(#[trigger] ls[i], COMMA), count_of(ls[0], COMMA))
    } else if count_of(ls[0], TAB) >= 1 {
        forall|i: int|
            1 <= i < ls.len() ==> close_count(count_of(#[trigger] ls[i], TAB), count_of(ls[0], TAB))
    } else {
        false
    }
}

/// The first at most five lines of `s`.
pub open spec fn head_lines(s: Seq<u8>) -> Seq<Seq<u8>> {
    let ls = split_lines(s);
    if ls.len() <= CSV_MAX_LINES {
        ls
    } else {
        ls.subrange(0, CSV_MAX_LINES as int)
    }
}

/// The CSV heuristic: the first KiB is UTF-8 and its first lines agree on
/// the count of the delimiter chosen from the first line (comma, else tab).
pub open spec fn looks_like_csv(b: Seq<u8>) -> bool {
    let p = prefix(b, CSV_PREFIX_LEN as int);
    valid_utf8(p) && csv_lines_agree(head_lines(p))
}

/// UTF-8 with at least 85% printable-or-whitespace bytes.
pub open spec fn looks_like_text(b: Seq<u8>) -> bool {
    valid_utf8(b) && printable_count(b) * 100 >= 85 * b.len()
}

/// `b` carries the Office Open XML manifest of a spreadsheet.
pub open spec fn is_xlsx(b: Seq<u8>) -> bool {
    contains_seq(b, content_types_name()) && contains_seq(b, xl_dir())
}

/// `b` carries the Office Open XML manifest of a word-processing document.
pub open spec fn is_docx(b: Seq<u8>) -> bool {
    contains_seq(b, content_types_name()) && !contains_seq(b, xl_dir()) && contains_seq(b, word_dir())
}

/// `b` is a RIFF container of form type `WEBP`.
pub open spec fn is_webp(b: Seq<u8>) -> bool {
    starts_with(b, riff_magic()) && b.len() >= 12 && b.subrange(8, 12) == webp_tag()
}

/// `b` starts with one of the Mach-O magics.
pub open spec fn is_macho(b: Seq<u8>) -> bool {
    starts_with(b, macho32_magic()) || starts_with(b, macho64_magic()) || starts_with(b, fat_magic())
}

/// The XML check: UTF-8 whose first character after leading Unicode
/// whitespace is `<` (which covers `<?xml`).
pub open spec fn looks_like_xml(p: Seq<u8>) -> bool {
    valid_utf8(p) && first_non_ws_char(decode_utf8(p)) == Some('<')
}

/// The MIME type assigned to a file whose first bytes are `b`; signatures
/// are tried in priority order and the first match wins.
pub open spec fn detected_mime(b: Seq<u8>) -> Seq<char> {
    if starts_with(b, sqlite_magic()) {
        "application/vnd.sqlite3"@
    } else if starts_with(b, leveldb_magic()) {
        "application/x-leveldb"@
    } else if starts_with(b, zip_magic()) {
        if is_xlsx(b) {
            "application/vnd.openxmlformats-officedocument.spreadsheetml.sheet"@
        } else if is_docx(b) {
            "application/vnd.openxmlformats-officedocument.wordprocessingml.document"@
        } else {
            "application/zip"@
        }
    } else if starts_with(b, pdf_magic()) {
        "application/pdf"@
    } else if starts_with(b, parquet_magic()) {
        "application/vnd.apache.parquet"@
    } else if starts_with(b, png_magic()) {
        "image/png"@
    } else if starts_with(b, jpeg_magic()) {
        "image/jpeg"@
    } else if starts_with(b, gif87_magic()) || starts_with(b, gif89_magic()) {
        "image/gif"@
    } else if is_webp(b) {
        "image/webp"@
    } else if (first_non_ws_is(b, 0x7b) || first_non_ws_is(b, 0x5b)) && valid_utf8(b) {
        "application/json"@
    } else if b.len() >= 5 && looks_like_xml(prefix(b, XML_PREFIX_LEN as int)) {
        "application/xml"@
    } else if looks_like_csv(b) {
        "text/csv"@
    } else if starts_with(b, elf_magic()) {
        "application/x-executable"@
    } else if is_macho(b) {
        "application/x-mach-binary"@
    } else if starts_with(b, mz_magic()) {
        "application/x-dosexec"@
    } else if looks_like_text(b) {
        "text/plain"@
    } else {
        "application/octet-stream"@
    }
}

/// The category assigned alongside `detected_mime(b)`.
pub open spec fn detected_category(b: Seq<u8>) -> FileCategory {
    category_of_mime(detected_mime(b))
}

/// Detection is a function of a file's first 512 bytes: files (or two
/// readings of one file) that agree on them get the same MIME type, the same
/// category and the same magic header.
pub proof fn lemma_detection_repeatable(a: Seq<u8>, b: Seq<u8>)
    requires
        prefix(a, DETECT_PREFIX_LEN as int) == prefix(b, DETECT_PREFIX_LEN as int),
    ensures
        detected_mime(prefix(a, DETECT_PREFIX_LEN as int)) == detected_mime(prefix(b, DETECT_PREFIX_LEN as int)),
        detected_category(prefix(a, DETECT_PREFIX_LEN as int)) == detected_category(
            prefix(b, DETECT_PREFIX_LEN as int),
        ),
        hex_of(prefix(a, 16)) == hex_of(prefix(b, 16)),
{
    let pa = prefix(a, DETECT_PREFIX_LEN as int);
    assert(prefix(a, 16) =~= prefix(pa, 16));
    assert(prefix(b, 16) =~= prefix(pa, 16));
}

fn looks_like_xml_exec(p: &[u8]) -> (r: bool)
    ensures
        r == looks_like_xml(p@),
{
    match utf8_string(p) {
        Some(s) => first_non_ws_char_exec(s.as_str()) == Some('<'),
        None => false,
    }
}

fn is_utf8(b: &[u8]) -> (r: bool)
    ensures
        r == valid_utf8(b@),
{
    utf8_string(b).is_some()
}

fn prefix_slice(b: &[u8], n: usize) -> (r: &[u8])
    ensures
        r@ == prefix(b@, n as int),
{
    if b.len() <= n {
        b
    } else {
        vstd::slice::slice_subrange(b, 0, n)
    }
}

/// Whether the first byte of `b` that is not ASCII whitespace is `c`.
fn first_non_ws_is_exec(b: &[u8], c: u8) -> (r: bool)
    requires
        !is_ascii_ws(c),
    ensures
        r == first_non_ws_is(b@, c),
{
    let mut k: usize = 0;
    while k < b.len()
        invariant
            k <= b.len(),
            !is_ascii_ws(c),
            forall|j: int| 0 <= j < k ==> is_ascii_ws(#[trigger] b@[j]),
        decreases b.len() - k,
    {
        let x = b[k];
        if !(x == 0x20 || x == 0x09 || x == 0x0a || x == 0x0c || x == 0x0d) {
            if x == c {
                return true;
            }
            assert forall|m: int|
                0 <= m < b@.len() && b@[m] == c && (forall|j: int|
                    0 <= j < m ==> is_ascii_ws(#[trigger] b@[j])) implies false by {
                if m > k {
                    assert(is_ascii_ws(b@[k as int]));
                } else if m < k {
                    assert(is_ascii_ws(b@[m]));
                } else {
                    assert(b@[m] == x);
                }
            }
            return false;
        }
        k = k + 1;
    }
    false
}

proof fn lemma_count_step(s: Seq<u8>, lo: int, k: int, c: u8)
    requires
        0 <= lo <= k < s.len(),
    ensures
        count_of(s.subrange(lo, k + 1), c) == count_of(s.subrange(lo, k), c) + if s[k] == c {
            1nat
        } else {
            0nat
        },
{
    assert(s.subrange(lo, k + 1).drop_last() =~= s.subrange(lo, k));
}

proof fn lemma_printable_step(s: Seq<u8>, k: int)
    requires
        0 <= k < s.len(),
    ensures
        printable_count(s.subrange(0, k + 1)) == printable_count(s.subrange(0, k)) + if is_printable(
            s[k],
        ) {
            1nat
        } else {
            0nat
        },
{
    assert(s.subrange(0, k + 1).drop_last() =~= s.subrange(0, k));
}

/// A line that runs to the first line feed (or to the end) has that length.
proof fn lemma_line_len(s: Seq<u8>, m: int)
    requires
        0 <= m <= s.len(),
        forall|j: int| 0 <= j < m ==> s[j] != LF,
        m == s.len() || s[m] == LF,
    ensures
        line_len(s) == m,
    decreases m,
{
    if m > 0 {
        lemma_line_len(s.drop_first(), m - 1);
    }
}

/// Per-line comma and tab counts of the first at most five lines of `p`.
fn line_counts(p: &[u8]) -> (r: Vec<(usize, usize)>)
    ensures
        r@.len() == head_lines(p@).len(),
        forall|i: int|
            0 <= i < r@.len() ==> (#[trigger] r@[i]).0 == count_of(head_lines(p@)[i], COMMA)
                && r@[i].1 == count_of(head_lines(p@)[i], TAB),
{
    let ghost all = split_lines(p@);
    let mut out: Vec<(usize, usize)> = Vec::new();
    let mut pos: usize = 0;
    assert(p@.subrange(0, p@.len() as int) =~= p@);
    assert(all.subrange(0, all.len() as int) =~= all);
    while pos < p.len() && out.len() < CSV_MAX_LINES
        invariant
            pos <= p.len(),
            out@.len() <= CSV_MAX_LINES,
            all == split_lines(p@),
            out@.len() <= all.len(),
            all.subrange(out@.len() as int, all.len() as int) == split_lines(
                p@.subrange(pos as int, p@.len() as int),
            ),
            forall|i: int|
                0 <= i < out@.len() ==> (#[trigger] out@[i]).0 == count_of(all[i], COMMA)
                    && out@[i].1 == count_of(all[i], TAB),
        decreases p.len() - pos,
    {
        let ghost rest = p@.subrange(pos as int, p@.len() as int);
        let mut k: usize = pos;
        let mut commas: usize = 0;
        let mut tabs: usize = 0;
        while k < p.len() && p[k] != LF
            invariant
                pos <= k <= p.len(),
                forall|j: int| pos <= j < k ==> p@[j] != LF,
                commas == count_of(p@.subrange(pos as int, k as int), COMMA),
                tabs == count_of(p@.subrange(pos as int, k as int), TAB),
                commas <= k - pos,
                tabs <= k - pos,
            decreases p.len() - k,
        {
            proof {
                lemma_count_step(p@, pos as int, k as int, COMMA);
                lemma_count_step(p@, pos as int, k as int, TAB);
            }
            if p[k] == COMMA {
                commas = commas + 1;
            }
            if p[k] == TAB {
                tabs = tabs + 1;
            }
            k = k + 1;
        }
        proof {
            let m = k - pos;
            assert forall|j: int| 0 <= j < m implies rest[j] != LF by {
                assert(rest[j] == p@[pos + j]);
            }
            lemma_line_len(rest, m as int);
            assert(rest.subrange(0, m as int) =~= p@.subrange(pos as int, k as int));
            let idx = out@.len() as int;
            assert(split_lines(rest).len() >= 1);
            assert(all.subrange(idx, all.len() as int)[0] == split_lines(rest)[0]);
            if k < p.len() {
                assert(rest.subrange(m + 1, rest.len() as int) =~= p@.subrange(
                    k + 1,
                    p@.len() as int,
                ));
                assert(all.subrange(idx + 1, all.len() as int) =~= all.subrange(
                    idx,
                    all.len() as int,
                ).drop_first());
            } else {
                assert(all.subrange(idx + 1, all.len() as int) =~= all.subrange(
                    idx,
                    all.len() as int,
                ).drop_first());
                assert(p@.subrange(p@.len() as int, p@.len() as int) =~= Seq::<u8>::empty());
            }
        }
        out.push((commas, tabs));
        if k < p.len() {
            pos = k + 1;
        } else {
            pos = k;
        }
    }
    proof {
        if pos == p.len() {
            assert(p@.subrange(pos as int, p@.len() as int) =~= Seq::<u8>::empty());
            assert(all.subrange(out@.len() as int, all.len() as int).len() == 0);
        }
    }
    out
}

/// The CSV heuristic over the first bytes of a file.
fn looks_like_csv_exec(b: &[u8]) -> (r: bool)
    ensures
        r == looks_like_csv(b@),
{
    let p = prefix_slice(b, CSV_PREFIX_LEN);
    if !is_utf8(p) {
        return false;
    }
    let counts = line_counts(p);
    let ghost ls = head_lines(p@);
    if counts.len() < 2 {
        return false;
    }
    let first_commas = counts[0].0;
    let first_tabs = counts[0].1;
    let use_commas = first_commas >= 1;
    if !use_commas && first_tabs < 1 {
        return false;
    }
    let first = if use_commas {
        first_commas
    } else {
        first_tabs
    };
    let mut i: usize = 1;
    while i < counts.len()
        invariant
            p@ == prefix(b@, CSV_PREFIX_LEN as int),
            1 <= i <= counts@.len(),
            counts@.len() == ls.len(),
            ls == head_lines(p@),
            first == if use_commas {
                count_of(ls[0], COMMA)
            } else {
                count_of(ls[0], TAB)
            },
            use_commas == (count_of(ls[0], COMMA) >= 1),
            forall|j: int|
                0 <= j < counts@.len() ==> (#[trigger] counts@[j]).0 == count_of(ls[j], COMMA)
                    && counts@[j].1 == count_of(ls[j], TAB),
            forall|j: int|
                1 <= j < i ==> close_count(
                    if use_commas {
                        count_of(#[trigger] ls[j], COMMA)
                    } else {
                        count_of(ls[j], TAB)
                    },
                    first as nat,
                ),
        decreases counts.len() - i,
    {
        let n = if use_commas {
            counts[i].0
        } else {
            counts[i].1
        };
        let ok = n == 0 || (n <= first && first - n <= 1) || (n > first && n - first <= 1);
        if !ok {
            assert(!close_count(n as nat, first as nat));
            if use_commas {
                assert(!close_count(count_of(ls[i as int], COMMA), count_of(ls[0], COMMA)));
            } else {
                assert(!close_count(count_of(ls[i as int], TAB), count_of(ls[0], TAB)));
            }
            return false;
        }
        i = i + 1;
    }
    true
}

/// UTF-8 with at least 85% printable-or-whitespace bytes.
fn looks_like_text_exec(b: &[u8]) -> (r: bool)
    ensures
        r == looks_like_text(b@),
{
    if !is_utf8(b) {
        return false;
    }
    let mut printable: usize = 0;
    let mut k: usize = 0;
    while k < b.len()
        invariant
            k <= b.len(),
            printable <= k,
            printable == printable_count(b@.subrange(0, k as int)),
        decreases b.len() - k,
    {
        proof {
            lemma_printable_step(b@, k as int);
        }
        let x = b[k];
        if (0x21 <= x && x <= 0x7e) || x == 0x20 || x == 0x09 || x == 0x0a || x == 0x0c || x == 0x0d {
            printable = printable + 1;
        }
        k = k + 1;
    }
    assert(b@.subrange(0, b@.len() as int) =~= b@);
    (printable as u128) * 100 >= (b.len() as u128) * 85
}

fn begins_with(b: &[u8], sig: Vec<u8>) -> (r: bool)
    ensures
        r == starts_with(b@, sig@),
{
    starts_with_bytes(b, sig.as_slice())
}

fn mentions(b: &[u8], sig: Vec<u8>) -> (r: bool)
    ensures
        r == contains_seq(b@, sig@),
{
    contains_bytes(b, sig.as_slice())
}

/// The result of detection: a MIME-like type, its category and the hex of
/// the first (up to sixteen) bytes.
#[derive(Debug, Clone)]
pub struct DetectedFileType {
    pub mime_type: String,
    pub category: FileCategory,
    pub magic_header: String,
}

/// Classifies files by their content, never by their name.
pub struct FileTypeDetector;

impl FileTypeDetector {
    /// The MIME type and category of a file whose first bytes are `bytes`.
    pub fn identify_type(bytes: &[u8]) -> (r: (String, FileCategory))
        ensures
            r.0@ == detected_mime(bytes@),
            r.1 == detected_category(bytes@),
    {
        let mime: &str = Self::identify_mime(bytes);
        (mime.to_owned(), FileCategory::from_mime(mime))
    }

    /// Detects the type of a file from the bytes read from its start; only
    /// the first 512 of them are inspected.
    pub fn detect_bytes(bytes: &[u8]) -> (r: DetectedFileType)
        ensures
            r.mime_type@ == detected_mime(prefix(bytes@, DETECT_PREFIX_LEN as int)),
            r.category == detected_category(prefix(bytes@, DETECT_PREFIX_LEN as int)),
            r.category == category_of_mime(r.mime_type@),
            r.magic_header@ == hex_of(prefix(bytes@, 16)),
    {
        let head = prefix_slice(bytes, DETECT_PREFIX_LEN);
        let (mime_type, category) = Self::identify_type(head);
        let magic_header = hex_encode(prefix_slice(bytes, 16));
        DetectedFileType { mime_type, category, magic_header }
    }

    fn identify_mime(b: &[u8]) -> (r: &'static str)
        ensures
            r@ == detected_mime(b@),
    {
        if begins_with(b, sqlite_magic_bytes()) {
            "application/vnd.sqlite3"
        } else if begins_with(b, leveldb_magic_bytes()) {
            "application/x-leveldb"
        } else if begins_with(b, zip_magic_bytes()) {
            if mentions(b, content_types_name_bytes()) && mentions(b, xl_dir_bytes()) {
                "application/vnd.openxmlformats-officedocument.spreadsheetml.sheet"
            } else if mentions(b, content_types_name_bytes()) && mentions(b, word_dir_bytes()) {
                "application/vnd.openxmlformats-officedocument.wordprocessingml.document"
            } else {
                "application/zip"
            }
        } else if begins_with(b, pdf_magic_bytes()) {
            "application/pdf"
        } else if begins_with(b, parquet_magic_bytes()) {
            "application/vnd.apache.parquet"
        } else if begins_with(b, png_magic_bytes()) {
            "image/png"
        } else if begins_with(b, jpeg_magic_bytes()) {
            "image/jpeg"
        } else if begins_with(b, gif87_magic_bytes()) || begins_with(b, gif89_magic_bytes()) {
            "image/gif"
        } else if begins_with(b, riff_magic_bytes()) && b.len() >= 12 && Self::webp_tag_at_eight(b) {
            "image/webp"
        } else if (first_non_ws_is_exec(b, 0x7b) || first_non_ws_is_exec(b, 0x5b)) && is_utf8(b) {
            "application/json"
        } else if b.len() >= 5 && looks_like_xml_exec(prefix_slice(b, XML_PREFIX_LEN)) {
            "application/xml"
        } else if looks_like_csv_exec(b) {
            "text/csv"
        } else if begins_with(b, elf_magic_bytes()) {
            "application/x-executable"
        } else if begins_with(b, macho32_magic_bytes()) || begins_with(b, macho64_magic_bytes())
            || begins_with(b, fat_magic_bytes()) {
            "application/x-mach-binary"
        } else if begins_with(b, mz_magic_bytes()) {
            "application/x-dosexec"
        } else if looks_like_text_exec(b) {
            "text/plain"
        } else {
            "application/octet-stream"
        }
    }

    fn webp_tag_at_eight(b: &[u8]) -> (r: bool)
        requires
            b@.len() >= 12,
        ensures
            r == (b@.subrange(8, 12) == webp_tag()),
    {
        let tag = webp_tag_bytes();
        let r = crate::text::occurs_at_bytes(b, tag.as_slice(), 8);
        r
    }
}

} // verus!
