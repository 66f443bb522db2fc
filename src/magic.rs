//! Byte signatures recognised by the type detector and the archive planner.

use vstd::prelude::*;

verus! {

/// The SQLite database header, `SQLite format 3\0`.
pub open spec fn sqlite_magic() -> Seq<u8> {
    seq![0x53u8, 0x51u8, 0x4cu8, 0x69u8, 0x74u8, 0x65u8, 0x20u8, 0x66u8, 0x6fu8, 0x72u8, 0x6du8, 0x61u8, 0x74u8, 0x20u8, 0x33u8, 0x00u8]
}

pub fn sqlite_magic_bytes() -> (r: Vec<u8>)
    ensures
        r@ == sqlite_magic(),
{
    let r: Vec<u8> = vec![0x53, 0x51, 0x4c, 0x69, 0x74, 0x65, 0x20, 0x66, 0x6f, 0x72, 0x6d, 0x61, 0x74, 0x20, 0x33, 0x00];
    assert(r@ =~= sqlite_magic());
    r
}

/// The LevelDB marker, `leveldb/`.
pub open spec fn leveldb_magic() -> Seq<u8> {
    seq![0x6cu8, 0x65u8, 0x76u8, 0x65u8, 0x6cu8, 0x64u8, 0x62u8, 0x2fu8]
}

pub fn leveldb_magic_bytes() -> (r: Vec<u8>)
    ensures
        r@ == leveldb_magic(),
{
    let r: Vec<u8> = vec![0x6c, 0x65, 0x76, 0x65, 0x6c, 0x64, 0x62, 0x2f];
    assert(r@ =~= leveldb_magic());
    r
}

/// The ZIP local file header, `PK\x03\x04`.
pub open spec fn zip_magic() -> Seq<u8> {
    seq![0x50u8, 0x4bu8, 0x03u8, 0x04u8]
}

pub fn zip_magic_bytes() -> (r: Vec<u8>)
    ensures
        r@ == zip_magic(),
{
    let r: Vec<u8> = vec![0x50, 0x4b, 0x03, 0x04];
    assert(r@ =~= zip_magic());
    r
}

/// The Office Open XML manifest name, `[Content_Types].xml`.
pub open spec fn content_types_name() -> Seq<u8> {
    seq![0x5bu8, 0x43u8, 0x6fu8, 0x6eu8, 0x74u8, 0x65u8, 0x6eu8, 0x74u8, 0x5fu8, 0x54u8, 0x79u8, 0x70u8, 0x65u8, 0x73u8, 0x5du8, 0x2eu8, 0x78u8, 0x6du8, 0x6cu8]
}

pub fn content_types_name_bytes() -> (r: Vec<u8>)
    ensures
        r@ == content_types_name(),
{
    let r: Vec<u8> = vec![0x5b, 0x43, 0x6f, 0x6e, 0x74, 0x65, 0x6e, 0x74, 0x5f, 0x54, 0x79, 0x70, 0x65, 0x73, 0x5d, 0x2e, 0x78, 0x6d, 0x6c];
    assert(r@ =~= content_types_name());
    r
}

/// The spreadsheet part directory, `xl/`.
pub open spec fn xl_dir() -> Seq<u8> {
    seq![0x78u8, 0x6cu8, 0x2fu8]
}

pub fn xl_dir_bytes() -> (r: Vec<u8>)
    ensures
        r@ == xl_dir(),
{
    let r: Vec<u8> = vec![0x78, 0x6c, 0x2f];
    assert(r@ =~= xl_dir());
    r
}

/// The word-processing part directory, `word/`.
pub open spec fn word_dir() -> Seq<u8> {
    seq![0x77u8, 0x6fu8, 0x72u8, 0x64u8, 0x2fu8]
}

pub fn word_dir_bytes() -> (r: Vec<u8>)
    ensures
        r@ == word_dir(),
{
    let r: Vec<u8> = vec![0x77, 0x6f, 0x72, 0x64, 0x2f];
    assert(r@ =~= word_dir());
    r
}

/// The PDF header, `%PDF`.
pub open spec fn pdf_magic() -> Seq<u8> {
    seq![0x25u8, 0x50u8, 0x44u8, 0x46u8]
}

pub fn pdf_magic_bytes() -> (r: Vec<u8>)
    ensures
        r@ == pdf_magic(),
{
    let r: Vec<u8> = vec![0x25, 0x50, 0x44, 0x46];
    assert(r@ =~= pdf_magic());
    r
}

/// The Parquet header, `PAR1`.
pub open spec fn parquet_magic() -> Seq<u8> {
    seq![0x50u8, 0x41u8, 0x52u8, 0x31u8]
}

pub fn parquet_magic_bytes() -> (r: Vec<u8>)
    ensures
        r@ == parquet_magic(),
{
    let r: Vec<u8> = vec![0x50, 0x41, 0x52, 0x31];
    assert(r@ =~= parquet_magic());
    r
}

/// The PNG signature.
pub open spec fn png_magic() -> Seq<u8> {
    seq![0x89u8, 0x50u8, 0x4eu8, 0x47u8, 0x0du8, 0x0au8, 0x1au8, 0x0au8]
}

pub fn png_magic_bytes() -> (r: Vec<u8>)
    ensures
        r@ == png_magic(),
{
    let r: Vec<u8> = vec![0x89, 0x50, 0x4e, 0x47, 0x0d, 0x0a, 0x1a, 0x0a];
    assert(r@ =~= png_magic());
    r
}

/// The JPEG start-of-image marker.
pub open spec fn jpeg_magic() -> Seq<u8> {
    seq![0xffu8, 0xd8u8]
}

pub fn jpeg_magic_bytes() -> (r: Vec<u8>)
    ensures
        r@ == jpeg_magic(),
{
    let r: Vec<u8> = vec![0xff, 0xd8];
    assert(r@ =~= jpeg_magic());
    r
}

/// The GIF 87a header.
pub open spec fn gif87_magic() -> Seq<u8> {
    seq![0x47u8, 0x49u8, 0x46u8, 0x38u8, 0x37u8, 0x61u8]
}

pub fn gif87_magic_bytes() -> (r: Vec<u8>)
    ensures
        r@ == gif87_magic(),
{
    let r: Vec<u8> = vec![0x47, 0x49, 0x46, 0x38, 0x37, 0x61];
    assert(r@ =~= gif87_magic());
    r
}

/// The GIF 89a header.
pub open spec fn gif89_magic() -> Seq<u8> {
    seq![0x47u8, 0x49u8, 0x46u8, 0x38u8, 0x39u8, 0x61u8]
}

pub fn gif89_magic_bytes() -> (r: Vec<u8>)
    ensures
        r@ == gif89_magic(),
{
    let r: Vec<u8> = vec![0x47, 0x49, 0x46, 0x38, 0x39, 0x61];
    assert(r@ =~= gif89_magic());
    r
}

/// The RIFF container header.
pub open spec fn riff_magic() -> Seq<u8> {
    seq![0x52u8, 0x49u8, 0x46u8, 0x46u8]
}

pub fn riff_magic_bytes() -> (r: Vec<u8>)
    ensures
        r@ == riff_magic(),
{
    let r: Vec<u8> = vec![0x52, 0x49, 0x46, 0x46];
    assert(r@ =~= riff_magic());
    r
}

/// The WebP form type, found at offset 8 of a RIFF file.
pub open spec fn webp_tag() -> Seq<u8> {
    seq![0x57u8, 0x45u8, 0x42u8, 0x50u8]
}

pub fn webp_tag_bytes() -> (r: Vec<u8>)
    ensures
        r@ == webp_tag(),
{
    let r: Vec<u8> = vec![0x57, 0x45, 0x42, 0x50];
    assert(r@ =~= webp_tag());
    r
}

/// The ELF header.
pub open spec fn elf_magic() -> Seq<u8> {
    seq![0x7fu8, 0x45u8, 0x4cu8, 0x46u8]
}

pub fn elf_magic_bytes() -> (r: Vec<u8>)
    ensures
        r@ == elf_magic(),
{
    let r: Vec<u8> = vec![0x7f, 0x45, 0x4c, 0x46];
    assert(r@ =~= elf_magic());
    r
}

/// The Mach-O 32-bit magic.
pub open spec fn macho32_magic() -> Seq<u8> {
    seq![0xfeu8, 0xedu8, 0xfau8, 0xceu8]
}

pub fn macho32_magic_bytes() -> (r: Vec<u8>)
    ensures
        r@ == macho32_magic(),
{
    let r: Vec<u8> = vec![0xfe, 0xed, 0xfa, 0xce];
    assert(r@ =~= macho32_magic());
    r
}

/// The Mach-O 64-bit magic.
pub open spec fn macho64_magic() -> Seq<u8> {
    seq![0xfeu8, 0xedu8, 0xfau8, 0xcfu8]
}

pub fn macho64_magic_bytes() -> (r: Vec<u8>)
    ensures
        r@ == macho64_magic(),
{
    let r: Vec<u8> = vec![0xfe, 0xed, 0xfa, 0xcf];
    assert(r@ =~= macho64_magic());
    r
}

/// The universal (fat) binary magic.
pub open spec fn fat_magic() -> Seq<u8> {
    seq![0xcau8, 0xfeu8, 0xbau8, 0xbeu8]
}

pub fn fat_magic_bytes() -> (r: Vec<u8>)
    ensures
        r@ == fat_magic(),
{
    let r: Vec<u8> = vec![0xca, 0xfe, 0xba, 0xbe];
    assert(r@ =~= fat_magic());
    r
}

/// The DOS/PE executable header.
pub open spec fn mz_magic() -> Seq<u8> {
    seq![0x4du8, 0x5au8]
}

pub fn mz_magic_bytes() -> (r: Vec<u8>)
    ensures
        r@ == mz_magic(),
{
    let r: Vec<u8> = vec![0x4d, 0x5a];
    assert(r@ =~= mz_magic());
    r
}

} // verus!
