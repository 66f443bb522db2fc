//! Archive unpacking policy: which files are archives, which format they
//! are in, whether they may be unpacked, and where.

use vstd::prelude::*;
use crate::digest::{hash16, hash16_of};
use crate::magic::{zip_magic, zip_magic_bytes};
use crate::paths::{
    extension,
    file_name,
    file_stem,
    join,
    lower_of,
    lowercase,
    parent,
    path_extension,
    path_file_name,
    path_file_stem,
    path_join,
    path_parent,
};
use crate::text::{chars_of, ends_with, ends_with_text, is_text, same_text, starts_with, starts_with_bytes};

verus! {

/// Default largest archive that may be unpacked: 5 GiB.
pub const DEFAULT_MAX_ARCHIVE_SIZE: u64 = 5368709120;

/// Default limit on archives nested within archives.
pub const DEFAULT_MAX_NESTING_LEVEL: u32 = 3;

/// Archive unpacking settings.
#[derive(Debug, Clone)]
pub struct ArchiveSettings {
    /// Unpack archives while indexing.
    pub auto_unpack: bool,
    /// Unpack next to the archive rather than under the project's data directory.
    pub unpack_to_host: bool,
    /// Largest archive, in bytes, that is unpacked; `None` for no limit.
    pub max_archive_size: Option<u64>,
    /// Archives at this nesting level or deeper are not unpacked.
    pub max_nesting_level: u32,
    /// Lowercase file extensions treated as archives.
    pub archive_extensions: Vec<String>,
    /// Remove unpacked files when re-indexing.
    pub clean_on_reindex: bool,
}

/// The default list of archive extensions.
pub open spec fn default_archive_extensions() -> Seq<Seq<char>> {
    seq!["zip"@, "tar"@, "gz"@, "tgz"@, "bz2"@, "xz"@, "7z"@, "rar"@]
}

impl Default for ArchiveSettings {
    fn default() -> (r: ArchiveSettings)
        ensures
            r.auto_unpack,
            r.unpack_to_host,
            r.max_archive_size == Some(DEFAULT_MAX_ARCHIVE_SIZE),
            r.max_nesting_level == DEFAULT_MAX_NESTING_LEVEL,
            r.archive_extensions@.map_values(|e: String| e@) == default_archive_extensions(),
            !r.clean_on_reindex,
    {
        let archive_extensions: Vec<String> = vec![
            "zip".to_owned(),
            "tar".to_owned(),
            "gz".to_owned(),
            "tgz".to_owned(),
            "bz2".to_owned(),
            "xz".to_owned(),
            "7z".to_owned(),
            "rar".to_owned(),
        ];
        assert(archive_extensions@.map_values(|e: String| e@) =~= default_archive_extensions());
        ArchiveSettings {
            auto_unpack: true,
            unpack_to_host: true,
            max_archive_size: Some(DEFAULT_MAX_ARCHIVE_SIZE),
            max_nesting_level: DEFAULT_MAX_NESTING_LEVEL,
            archive_extensions,
            clean_on_reindex: false,
        }
    }
}

/// Archive formats that are recognised.
#[derive(Debug, Clone, Copy, PartialEq, Eq, Structural)]
pub enum ArchiveFormat {
    Zip,
    Tar,
    TarGz,
    TarBz2,
    TarXz,
    SevenZ,
    Rar,
    Gzip,
    Bzip2,
    Xz,
}

/// The format named by a lowercase extension.
pub open spec fn format_of_extension(e: Seq<char>) -> Option<ArchiveFormat> {
    if e == "zip"@ {
        Some(ArchiveFormat::Zip)
    } else if e == "tar"@ {
        Some(ArchiveFormat::Tar)
    } else if e == "gz"@ {
        Some(ArchiveFormat::Gzip)
    } else if e == "tgz"@ || e == "tar.gz"@ {
        Some(ArchiveFormat::TarGz)
    } else if e == "bz2"@ {
        Some(ArchiveFormat::Bzip2)
    } else if e == "tbz"@ || e == "tbz2"@ || e == "tar.bz2"@ {
        Some(ArchiveFormat::TarBz2)
    } else if e == "xz"@ {
        Some(ArchiveFormat::Xz)
    } else if e == "txz"@ || e == "tar.xz"@ {
        Some(ArchiveFormat::TarXz)
    } else if e == "7z"@ {
        Some(ArchiveFormat::SevenZ)
    } else if e == "rar"@ {
        Some(ArchiveFormat::Rar)
    } else {
        None
    }
}

/// The formats that are unpacked: zip, tar, tar.gz, single-stream gzip and 7z.
pub open spec fn format_supported(f: ArchiveFormat) -> bool {
    match f {
        ArchiveFormat::Zip | ArchiveFormat::Tar | ArchiveFormat::TarGz | ArchiveFormat::Gzip
        | ArchiveFormat::SevenZ => true,
        _ => false,
    }
}

impl ArchiveFormat {
    /// The format named by an extension that is already lowercase.
    pub fn from_lowercase_extension(ext: &str) -> (r: Option<ArchiveFormat>)
        ensures
            r == format_of_extension(ext@),
    {
        let v = chars_of(ext);
        let e = v.as_slice();
        if is_text(e, "zip") {
            Some(ArchiveFormat::Zip)
        } else if is_text(e, "tar") {
            Some(ArchiveFormat::Tar)
        } else if is_text(e, "gz") {
            Some(ArchiveFormat::Gzip)
        } else if is_text(e, "tgz") || is_text(e, "tar.gz") {
            Some(ArchiveFormat::TarGz)
        } else if is_text(e, "bz2") {
            Some(ArchiveFormat::Bzip2)
        } else if is_text(e, "tbz") || is_text(e, "tbz2") || is_text(e, "tar.bz2") {
            Some(ArchiveFormat::TarBz2)
        } else if is_text(e, "xz") {
            Some(ArchiveFormat::Xz)
        } else if is_text(e, "txz") || is_text(e, "tar.xz") {
            Some(ArchiveFormat::TarXz)
        } else if is_text(e, "7z") {
            Some(ArchiveFormat::SevenZ)
        } else if is_text(e, "rar") {
            Some(ArchiveFormat::Rar)
        } else {
            None
        }
    }

    /// The format named by an extension, in any case.
    pub fn from_extension(ext: &str) -> (r: Option<ArchiveFormat>)
        ensures
            r == format_of_extension(lower_of(ext@)),
    {
        let lower = lowercase(ext);
        Self::from_lowercase_extension(lower.as_str())
    }

    /// Whether the format is unpacked (bz2, xz and rar are recognised only).
    pub fn is_supported(&self) -> (r: bool)
        ensures
            r == format_supported(*self),
    {
        match self {
            ArchiveFormat::Zip | ArchiveFormat::Tar | ArchiveFormat::TarGz | ArchiveFormat::Gzip
            | ArchiveFormat::SevenZ => true,
            _ => false,
        }
    }
}

/// The gzip member header.
pub open spec fn gzip_magic() -> Seq<u8> {
    seq![0x1fu8, 0x8bu8]
}

/// The 7z signature.
pub open spec fn sevenz_magic() -> Seq<u8> {
    seq![0x37u8, 0x7au8, 0xbcu8, 0xafu8, 0x27u8, 0x1cu8]
}

/// The format of an archive given its extension (if any), its file name
/// and its first bytes: extension first, then a compound extension of the
/// name, then the magic bytes.
pub open spec fn format_from_parts(ext: Option<Seq<char>>, name: Seq<char>, magic: Seq<u8>) -> Option<
    ArchiveFormat,
> {
    if ext is Some && format_of_extension(lower_of(ext->0)) is Some {
        format_of_extension(lower_of(ext->0))
    } else if ends_with(name, ".tar.gz"@) {
        Some(ArchiveFormat::TarGz)
    } else if ends_with(name, ".tar.bz2"@) {
        Some(ArchiveFormat::TarBz2)
    } else if ends_with(name, ".tar.xz"@) {
        Some(ArchiveFormat::TarXz)
    } else if starts_with(magic, zip_magic()) {
        Some(ArchiveFormat::Zip)
    } else if starts_with(magic, gzip_magic()) {
        Some(ArchiveFormat::Gzip)
    } else if starts_with(magic, sevenz_magic()) {
        Some(ArchiveFormat::SevenZ)
    } else {
        None
    }
}

/// The name of the file a path names, or the empty name when it has none.
pub open spec fn name_or_empty(p: Seq<char>) -> Seq<char> {
    match path_file_name(p) {
        Some(n) => n,
        None => Seq::empty(),
    }
}

/// Why an archive is not unpacked.
#[derive(Debug, Clone, PartialEq, Eq, Structural)]
pub enum UnpackError {
    /// The archive sits at or beyond the nesting limit.
    NestingTooDeep { level: u32, max_level: u32 },
    /// The archive is larger than the size limit.
    TooLarge { size: u64, max_size: u64 },
    /// Neither the name nor the first bytes tell the format.
    UnknownFormat,
    /// The format is recognised but not unpacked.
    Unsupported(ArchiveFormat),
    /// The archive path has no parent directory to unpack next to.
    NoParent,
    /// The archive's file name is not usable.
    InvalidName,
}

/// Where and how an archive is to be unpacked.
#[derive(Debug)]
pub struct UnpackPlan {
    pub format: ArchiveFormat,
    pub destination: String,
    pub nesting_level: u32,
}

/// Information about an unpacked archive.
#[derive(Debug, Clone)]
pub struct UnpackedArchiveInfo {
    pub archive_path: String,
    pub unpacked_to: String,
    pub file_count: u64,
    pub total_size: u64,
    pub nesting_level: u32,
    pub format: ArchiveFormat,
}

/// The unpack destination next to the archive: `<parent>/<stem>_unpacked`.
pub open spec fn host_destination(archive: Seq<char>) -> Option<Seq<char>> {
    match (path_parent(archive), path_file_stem(archive)) {
        (Some(p), Some(s)) => Some(path_join(p, s + "_unpacked"@)),
        _ => None,
    }
}

/// Why an archive cannot be unpacked next to itself: it has no parent
/// directory, or no file stem.
pub open spec fn destination_error(archive: Seq<char>) -> UnpackError {
    if path_parent(archive) is None {
        UnpackError::NoParent
    } else {
        UnpackError::InvalidName
    }
}

/// The stem used for sandboxed destinations (`archive` when there is none).
pub open spec fn stem_or_default(archive: Seq<char>) -> Seq<char> {
    match path_file_stem(archive) {
        Some(s) => s,
        None => "archive"@,
    }
}

/// The sandboxed unpack destination:
/// `<appdata>/unpacked_archives/<stem>_<hash16 of the archive path>`.
pub open spec fn sandbox_destination(archive: Seq<char>, appdata: Seq<char>) -> Seq<char> {
    path_join(
        path_join(appdata, "unpacked_archives"@),
        stem_or_default(archive) + "_"@ + hash16_of(archive),
    )
}

/// Unpacks archives, bounded by size and nesting depth.
pub struct ArchiveExtractor {
    pub settings: ArchiveSettings,
}

impl ArchiveExtractor {
    pub fn new(settings: ArchiveSettings) -> (r: ArchiveExtractor)
        ensures
            r.settings == settings,
    {
        ArchiveExtractor { settings }
    }

    /// Whether an archive at `nesting_level` may be unpacked at all: the level
    /// is below the nesting limit.
    pub fn nesting_allowed(&self, nesting_level: u32) -> (r: bool)
        ensures
            r == (nesting_level < self.settings.max_nesting_level),
    {
        nesting_level < self.settings.max_nesting_level
    }

    /// Whether a path's extension, lowercased, is one of the archive extensions.
    pub fn is_archive(&self, path: &str) -> (r: bool)
        ensures
            r == match path_extension(path@) {
                Some(e) => self.settings.archive_extensions@.map_values(|s: String| s@).contains(
                    lower_of(e),
                ),
                None => false,
            },
    {
        match extension(path) {
            Some(e) => {
                let lower = lowercase(e.as_str());
                contains_string(&self.settings.archive_extensions, lower.as_str())
            },
            None => false,
        }
    }

    /// The format of an archive from its extension, file name and first bytes.
    pub fn format_from(ext: Option<&str>, name: &str, magic: &[u8]) -> (r: Option<ArchiveFormat>)
        ensures
            r == format_from_parts(
                match ext {
                    Some(e) => Some(e@),
                    None => None,
                },
                name@,
                magic@,
            ),
    {
        if let Some(e) = ext {
            let f = ArchiveFormat::from_extension(e);
            if f.is_some() {
                return f;
            }
        }
        let v = chars_of(name);
        let n = v.as_slice();
        if ends_with_text(n, ".tar.gz") {
            return Some(ArchiveFormat::TarGz);
        } else if ends_with_text(n, ".tar.bz2") {
            return Some(ArchiveFormat::TarBz2);
        } else if ends_with_text(n, ".tar.xz") {
            return Some(ArchiveFormat::TarXz);
        }
        let gz: Vec<u8> = vec![0x1f, 0x8b];
        assert(gz@ =~= gzip_magic());
        let sz: Vec<u8> = vec![0x37, 0x7a, 0xbc, 0xaf, 0x27, 0x1c];
        assert(sz@ =~= sevenz_magic());
        let zip = zip_magic_bytes();
        if starts_with_bytes(magic, zip.as_slice()) {
            Some(ArchiveFormat::Zip)
        } else if starts_with_bytes(magic, gz.as_slice()) {
            Some(ArchiveFormat::Gzip)
        } else if starts_with_bytes(magic, sz.as_slice()) {
            Some(ArchiveFormat::SevenZ)
        } else {
            None
        }
    }

    /// The format of the archive at `archive_path` whose first bytes are `magic`.
    pub fn detect_format(archive_path: &str, magic: &[u8]) -> (r: Option<ArchiveFormat>)
        ensures
            r == format_from_parts(path_extension(archive_path@), name_or_empty(archive_path@), magic@),
    {
        let ext = extension(archive_path);
        let name = match file_name(archive_path) {
            Some(n) => n,
            None => String::new(),
        };
        match ext {
            Some(e) => Self::format_from(Some(e.as_str()), name.as_str(), magic),
            None => Self::format_from(None, name.as_str(), magic),
        }
    }

    /// Where the archive is unpacked under the current settings.
    pub fn extract_directory(&self, archive_path: &str, project_appdata: &str) -> (r: Result<String, UnpackError>)
        ensures
            self.settings.unpack_to_host ==> match host_destination(archive_path@) {
                Some(d) => (r matches Ok(s) && s@ == d),
                None => r == Err::<String, UnpackError>(destination_error(archive_path@)),
            },
            r matches Err(e) ==> (e == UnpackError::NoParent || e == UnpackError::InvalidName),
            !self.settings.unpack_to_host ==> (r matches Ok(s) && s@ == sandbox_destination(
                archive_path@,
                project_appdata@,
            )),
    {
        if self.settings.unpack_to_host {
            let p = match parent(archive_path) {
                Some(p) => p,
                None => return Err(UnpackError::NoParent),
            };
            let mut stem = match file_stem(archive_path) {
                Some(s) => s,
                None => return Err(UnpackError::InvalidName),
            };
            stem.append("_unpacked");
            Ok(join(p.as_str(), stem.as_str()))
        } else {
            let base = join(project_appdata, "unpacked_archives");
            let mut stem = match file_stem(archive_path) {
                Some(s) => s,
                None => "archive".to_owned(),
            };
            stem.append("_");
            let h = hash16(archive_path);
            stem.append(h.as_str());
            Ok(join(base.as_str(), stem.as_str()))
        }
    }

    /// Decides whether and where an archive of `size` bytes whose first bytes
    /// are `magic` is unpacked at `nesting_level`. Checks, in order: nesting
    /// depth, size, format, whether the format is unpacked, destination.
    pub fn plan_unpack(
        &self,
        archive_path: &str,
        size: u64,
        magic: &[u8],
        project_appdata: &str,
        nesting_level: u32,
    ) -> (r: Result<UnpackPlan, UnpackError>)
        ensures
            nesting_level >= self.settings.max_nesting_level <==> r == Err::<UnpackPlan, UnpackError>(
                UnpackError::NestingTooDeep { level: nesting_level, max_level: self.settings.max_nesting_level },
            ),
            nesting_level < self.settings.max_nesting_level ==> {
                let fmt = format_from_parts(
                    path_extension(archive_path@),
                    name_or_empty(archive_path@),
                    magic@,
                );
                if self.settings.max_archive_size is Some && size > self.settings.max_archive_size->0 {
                    r == Err::<UnpackPlan, UnpackError>(
                        UnpackError::TooLarge { size, max_size: self.settings.max_archive_size->0 },
                    )
                } else if fmt is None {
                    r == Err::<UnpackPlan, UnpackError>(UnpackError::UnknownFormat)
                } else if !format_supported(fmt->0) {
                    r == Err::<UnpackPlan, UnpackError>(UnpackError::Unsupported(fmt->0))
                } else if self.settings.unpack_to_host {
                    match host_destination(archive_path@) {
                        Some(d) => (r matches Ok(p) && p.destination@ == d && p.format == fmt->0
                            && p.nesting_level == nesting_level),
                        None => r == Err::<UnpackPlan, UnpackError>(destination_error(archive_path@)),
                    }
                } else {
                    (r matches Ok(p) && p.destination@ == sandbox_destination(
                        archive_path@,
                        project_appdata@,
                    ) && p.format == fmt->0 && p.nesting_level == nesting_level)
                }
            },
    {
        if nesting_level >= self.settings.max_nesting_level {
            return Err(
                UnpackError::NestingTooDeep { level: nesting_level, max_level: self.settings.max_nesting_level },
            );
        }
        if let Some(m) = self.settings.max_archive_size {
            if size > m {
                return Err(UnpackError::TooLarge { size, max_size: m });
            }
        }
        let format = match Self::detect_format(archive_path, magic) {
            Some(f) => f,
            None => return Err(UnpackError::UnknownFormat),
        };
        if !format.is_supported() {
            return Err(UnpackError::Unsupported(format));
        }
        let destination = match self.extract_directory(archive_path, project_appdata) {
            Ok(d) => d,
            Err(e) => return Err(e),
        };
        Ok(UnpackPlan { format, destination, nesting_level })
    }
}

/// Whether `v` holds a string equal to `s`.
pub fn contains_string(v: &Vec<String>, s: &str) -> (r: bool)
    ensures
        r == v@.map_values(|e: String| e@).contains(s@),
{
    let ghost m = v@.map_values(|e: String| e@);
    let mut i: usize = 0;
    while i < v.len()
        invariant
            m == v@.map_values(|e: String| e@),
            i <= v@.len(),
            forall|j: int| 0 <= j < i ==> m[j] != s@,
        decreases v.len() - i,
    {
        if same_text(v[i].as_str(), s) {
            assert(m[i as int] == s@);
            return true;
        }
        i = i + 1;
    }
    false
}

} // verus!
