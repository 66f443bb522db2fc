//! Summaries served by the database inspection commands.

use vstd::prelude::*;
use crate::digest::{hex_encode, hex_of};
use crate::extractors::BYTES_PER_KEY;
use crate::text::{chars_of, ends_with, ends_with_text, starts_with, starts_with_bytes, string_from_chars, string_views};

verus! {

/// Statistics of a project database.
#[derive(Debug)]
pub struct DatabaseStats {
    pub db_path: String,
    pub project_path: String,
    pub size_on_disk: u64,
    pub file_count: usize,
    pub indexed: bool,
}

/// A column of an inspected SQLite table.
#[derive(Debug)]
pub struct SqliteColumnInfo {
    pub name: String,
    pub data_type: String,
    pub nullable: bool,
    pub primary_key: bool,
}

/// An inspected SQLite table.
#[derive(Debug)]
pub struct SqliteTableInfo {
    pub name: String,
    pub columns: Vec<SqliteColumnInfo>,
    pub row_count: u64,
    pub indexes: Vec<String>,
}

/// An inspected SQLite database.
#[derive(Debug)]
pub struct SqliteDatabaseInfo {
    pub version: String,
    pub page_size: u32,
    pub tables: Vec<SqliteTableInfo>,
    pub total_rows: u64,
}

/// The text every SQLite file starts with: `SQLite format 3`.
pub open spec fn sqlite_header_text() -> Seq<u8> {
    seq![0x53u8, 0x51u8, 0x4cu8, 0x69u8, 0x74u8, 0x65u8, 0x20u8, 0x66u8, 0x6fu8, 0x72u8, 0x6du8, 0x61u8, 0x74u8, 0x20u8, 0x33u8]
}

/// Whether a file's first bytes identify it as a SQLite database.
pub fn is_sqlite_header(first_bytes: &[u8]) -> (r: bool)
    ensures
        r == starts_with(first_bytes@, sqlite_header_text()),
{
    let h: Vec<u8> = vec![0x53, 0x51, 0x4c, 0x69, 0x74, 0x65, 0x20, 0x66, 0x6f, 0x72, 0x6d, 0x61, 0x74, 0x20, 0x33];
    assert(h@ =~= sqlite_header_text());
    starts_with_bytes(first_bytes, h.as_slice())
}

/// A blob cell as text: `0x` and its lowercase hex.
pub fn blob_text(bytes: &[u8]) -> (r: String)
    ensures
        r@ == "0x"@ + hex_of(bytes@),
{
    let h = hex_encode(bytes);
    let mut s = "0x".to_owned();
    s.append(h.as_str());
    s
}

/// An entry of an inspected directory.
#[derive(Debug)]
pub struct DirEntryFacts {
    pub name: String,
    pub is_file: bool,
    pub is_dir: bool,
    /// The file's size; for a directory, the summed size of the files directly in it.
    pub size: u64,
}

/// An inspected LevelDB directory.
#[derive(Debug)]
pub struct LevelDbInfo {
    pub key_count: u64,
    pub approximate_size: u64,
    pub files: Vec<String>,
}

/// Summed sizes of the regular files among `e`.
pub open spec fn file_bytes(e: Seq<DirEntryFacts>) -> nat
    decreases e.len(),
{
    if e.len() == 0 {
        0
    } else {
        file_bytes(e.drop_last()) + if e.last().is_file {
            e.last().size as nat
        } else {
            0
        }
    }
}

/// The names of the regular files among `e`.
pub open spec fn file_names(e: Seq<DirEntryFacts>) -> Seq<Seq<char>>
    decreases e.len(),
{
    if e.len() == 0 {
        seq![]
    } else if e.last().is_file {
        file_names(e.drop_last()).push(e.last().name@)
    } else {
        file_names(e.drop_last())
    }
}

/// `x` capped at `u64::MAX`.
pub open spec fn sat(x: nat) -> u64 {
    if x > u64::MAX {
        u64::MAX
    } else {
        x as u64
    }
}

impl LevelDbInfo {
    /// The summary of a LevelDB directory from its entries.
    pub fn from_entries(entries: &Vec<DirEntryFacts>) -> (r: LevelDbInfo)
        ensures
            r.approximate_size == sat(file_bytes(entries@)),
            r.key_count == sat(file_bytes(entries@)) / BYTES_PER_KEY,
            string_views(r.files@) == file_names(entries@),
    {
        let mut total: u64 = 0;
        let mut files: Vec<String> = Vec::new();
        let mut i: usize = 0;
        while i < entries.len()
            invariant
                i <= entries@.len(),
                total == sat(file_bytes(entries@.subrange(0, i as int))),
                string_views(files@) == file_names(entries@.subrange(0, i as int)),
            decreases entries.len() - i,
        {
            let ghost cur = entries@.subrange(0, i + 1);
            assert(cur.drop_last() =~= entries@.subrange(0, i as int));
            if entries[i].is_file {
                total = total.saturating_add(entries[i].size);
                let ghost before = string_views(files@);
                files.push(entries[i].name.clone());
                assert(string_views(files@) =~= before.push(entries@[i as int].name@));
            }
            i = i + 1;
        }
        assert(entries@.subrange(0, entries@.len() as int) =~= entries@);
        LevelDbInfo { key_count: total / BYTES_PER_KEY, approximate_size: total, files }
    }
}

/// An inspected IndexedDB directory.
#[derive(Debug)]
pub struct IndexedDbInfo {
    pub databases: Vec<String>,
    pub total_keys: u64,
    pub subdirectories: Vec<String>,
}

/// The suffix of IndexedDB database directories.
pub open spec fn idb_suffix() -> Seq<char> {
    ".indexeddb"@
}

/// The database directories among `e`, as (name without the suffix, key estimate).
pub open spec fn idb_databases(e: Seq<DirEntryFacts>) -> Seq<(Seq<char>, nat)>
    decreases e.len(),
{
    if e.len() == 0 {
        seq![]
    } else {
        let rest = idb_databases(e.drop_last());
        let n = e.last().name@;
        if e.last().is_dir && ends_with(n, idb_suffix()) {
            rest.push((n.subrange(0, n.len() - idb_suffix().len()), e.last().size as nat / 100))
        } else {
            rest
        }
    }
}

/// The names of the subdirectories among `e`.
pub open spec fn dir_names(e: Seq<DirEntryFacts>) -> Seq<Seq<char>>
    decreases e.len(),
{
    if e.len() == 0 {
        seq![]
    } else if e.last().is_dir {
        dir_names(e.drop_last()).push(e.last().name@)
    } else {
        dir_names(e.drop_last())
    }
}

/// Summed key estimates.
pub open spec fn key_total(d: Seq<(Seq<char>, nat)>) -> nat
    decreases d.len(),
{
    if d.len() == 0 {
        0
    } else {
        key_total(d.drop_last()) + d.last().1
    }
}

impl IndexedDbInfo {
    /// The summary of an IndexedDB directory from its entries: each
    /// `*.indexeddb` subdirectory is a database with about one key per 100
    /// bytes; with none, the directory itself is one database named `indexeddb`.
    pub fn from_entries(entries: &Vec<DirEntryFacts>) -> (r: IndexedDbInfo)
        ensures
            string_views(r.subdirectories@) == dir_names(entries@),
            idb_databases(entries@).len() > 0 ==> string_views(r.databases@) == idb_databases(
                entries@,
            ).map_values(|d: (Seq<char>, nat)| d.0) && r.total_keys == sat(key_total(idb_databases(entries@))),
            idb_databases(entries@).len() == 0 ==> string_views(r.databases@) == seq!["indexeddb"@]
                && r.total_keys == sat(file_bytes(entries@)) / BYTES_PER_KEY,
    {
        let mut databases: Vec<String> = Vec::new();
        let mut subdirectories: Vec<String> = Vec::new();
        let mut keys: u64 = 0;
        let mut i: usize = 0;
        proof {
            reveal_strlit(".indexeddb");
        }
        while i < entries.len()
            invariant
                i <= entries@.len(),
                idb_suffix().len() == 10,
                string_views(subdirectories@) == dir_names(entries@.subrange(0, i as int)),
                string_views(databases@) == idb_databases(entries@.subrange(0, i as int)).map_values(
                    |d: (Seq<char>, nat)| d.0,
                ),
                keys == sat(key_total(idb_databases(entries@.subrange(0, i as int)))),
            decreases entries.len() - i,
        {
            let ghost cur = entries@.subrange(0, i + 1);
            assert(cur.drop_last() =~= entries@.subrange(0, i as int));
            let e = &entries[i];
            if e.is_dir {
                let ghost before = string_views(subdirectories@);
                subdirectories.push(e.name.clone());
                assert(string_views(subdirectories@) =~= before.push(e.name@));
                let v = chars_of(e.name.as_str());
                if ends_with_text(v.as_slice(), ".indexeddb") {
                    let ghost db0 = string_views(databases@);
                    let stem = string_from_chars(vstd::slice::slice_subrange(v.as_slice(), 0, v.len() - 10));
                    databases.push(stem);
                    assert(string_views(databases@) =~= db0.push(e.name@.subrange(0, e.name@.len() - 10)));
                    assert(idb_databases(cur).map_values(|d: (Seq<char>, nat)| d.0) =~= idb_databases(
                        entries@.subrange(0, i as int),
                    ).map_values(|d: (Seq<char>, nat)| d.0).push(e.name@.subrange(0, e.name@.len() - 10)));
                    proof {
                        let prevd = idb_databases(entries@.subrange(0, i as int));
                        let item = (e.name@.subrange(0, e.name@.len() - 10), e.size as nat / 100);
                        assert(idb_databases(cur) == prevd.push(item));
                        assert(idb_databases(cur).drop_last() =~= prevd);
                        assert(key_total(idb_databases(cur)) == key_total(prevd) + item.1);
                    }
                    keys = keys.saturating_add(e.size / 100);
                }
            }
            i = i + 1;
        }
        assert(entries@.subrange(0, entries@.len() as int) =~= entries@);
        if databases.len() == 0 {
            let mut total: u64 = 0;
            let mut j: usize = 0;
            while j < entries.len()
                invariant
                    j <= entries@.len(),
                    total == sat(file_bytes(entries@.subrange(0, j as int))),
                decreases entries.len() - j,
            {
                assert(entries@.subrange(0, j + 1).drop_last() =~= entries@.subrange(0, j as int));
                if entries[j].is_file {
                    total = total.saturating_add(entries[j].size);
                }
                j = j + 1;
            }
            assert(entries@.subrange(0, entries@.len() as int) =~= entries@);
            let names: Vec<String> = vec!["indexeddb".to_owned()];
            assert(string_views(names@) =~= seq!["indexeddb"@]);
            return IndexedDbInfo { databases: names, total_keys: total / BYTES_PER_KEY, subdirectories };
        }
        IndexedDbInfo { databases, total_keys: keys, subdirectories }
    }
}

} // verus!
