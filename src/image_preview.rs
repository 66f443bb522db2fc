//! Image preview decisions: which files are images, thumbnail size and
//! location, and the metadata recorded for an image.

use vstd::prelude::*;
use crate::archive::contains_string;
use crate::digest::{hash16, hash16_of};
use crate::paths::{extension, join, lower_of, lowercase, path_extension, path_join};
use crate::text::{same_text, string_views};

verus! {

/// Thumbnail and format settings.
#[derive(Debug, Clone)]
pub struct PreviewConfig {
    /// Longest edge of a thumbnail, in pixels.
    pub thumbnail_size: u32,
    /// JPEG quality of thumbnails (1 to 100).
    pub jpeg_quality: u8,
    /// Generate thumbnails (metadata is recorded either way).
    pub enabled: bool,
    /// Lowercase extensions treated as images.
    pub supported_formats: Vec<String>,
}

pub open spec fn default_image_formats() -> Seq<Seq<char>> {
    seq!["jpg"@, "jpeg"@, "png"@, "gif"@, "bmp"@, "webp"@, "tiff"@, "tif"@, "ico"@]
}

impl Default for PreviewConfig {
    fn default() -> (r: PreviewConfig)
        ensures
            r.thumbnail_size == 256,
            r.jpeg_quality == 85,
            !r.enabled,
            string_views(r.supported_formats@) == default_image_formats(),
    {
        let supported_formats: Vec<String> = vec![
            "jpg".to_owned(),
            "jpeg".to_owned(),
            "png".to_owned(),
            "gif".to_owned(),
            "bmp".to_owned(),
            "webp".to_owned(),
            "tiff".to_owned(),
            "tif".to_owned(),
            "ico".to_owned(),
        ];
        assert(string_views(supported_formats@) =~= default_image_formats());
        PreviewConfig { thumbnail_size: 256, jpeg_quality: 85, enabled: false, supported_formats }
    }
}

/// What was recorded about an image.
#[derive(Debug, Clone)]
pub struct ImageInfo {
    pub width: u32,
    pub height: u32,
    pub format: String,
    pub has_alpha: bool,
    pub color_type: String,
    pub thumbnail_path: Option<String>,
}

/// What decoding an image found.
#[derive(Debug, Clone)]
pub struct DecodedImage {
    pub width: u32,
    pub height: u32,
    pub has_alpha: bool,
    pub color_type: String,
}

/// The dimensions of a thumbnail whose longest edge is `max`, keeping the
/// aspect ratio (rounded down).
pub open spec fn thumbnail_dims(w: u32, h: u32, max: u32) -> (u32, u32) {
    if w > h {
        (max, ((max as nat * h as nat) / w as nat) as u32)
    } else {
        (((max as nat * w as nat) / h as nat) as u32, max)
    }
}

/// The thumbnail path of an image: `<preview_dir>/thumb_<hash16 of its path>.jpg`.
pub open spec fn thumbnail_path_of(preview_dir: Seq<char>, image: Seq<char>) -> Seq<char> {
    path_join(preview_dir, "thumb_"@ + hash16_of(image) + ".jpg"@)
}

/// The format name of an image: its lowercased extension, else the format
/// guessed from its content, else `unknown`.
pub open spec fn format_name_of(image: Seq<char>, guessed: Option<Seq<char>>) -> Seq<char> {
    match path_extension(image) {
        Some(e) => lower_of(e),
        None => match guessed {
            Some(g) => g,
            None => "unknown"@,
        },
    }
}

/// Decides image previews and thumbnail locations.
pub struct ImagePreviewGenerator {
    pub config: PreviewConfig,
    pub preview_dir: String,
}

impl ImagePreviewGenerator {
    pub fn new(config: PreviewConfig, preview_dir: String) -> (r: ImagePreviewGenerator)
        ensures
            r.config == config,
            r.preview_dir == preview_dir,
    {
        ImagePreviewGenerator { config, preview_dir }
    }

    /// Whether the path's lowercased extension is a supported image format.
    pub fn is_image(&self, path: &str) -> (r: bool)
        ensures
            r == match path_extension(path@) {
                Some(e) => string_views(self.config.supported_formats@).contains(lower_of(e)),
                None => false,
            },
    {
        match extension(path) {
            Some(e) => {
                let lower = lowercase(e.as_str());
                contains_string(&self.config.supported_formats, lower.as_str())
            },
            None => false,
        }
    }

    /// Whether the path's lowercased extension is `webp`.
    pub fn is_webp(path: &str) -> (r: bool)
        ensures
            r == match path_extension(path@) {
                Some(e) => lower_of(e) == "webp"@,
                None => false,
            },
    {
        match extension(path) {
            Some(e) => {
                let lower = lowercase(e.as_str());
                same_text(lower.as_str(), "webp")
            },
            None => false,
        }
    }

    /// Where the thumbnail of an image is written.
    pub fn get_thumbnail_path(&self, image_path: &str) -> (r: String)
        ensures
            r@ == thumbnail_path_of(self.preview_dir@, image_path@),
    {
        let h = hash16(image_path);
        let mut name = "thumb_".to_owned();
        name.append(h.as_str());
        name.append(".jpg");
        join(self.preview_dir.as_str(), name.as_str())
    }

    /// Thumbnail dimensions for an image of `width` by `height`.
    pub fn thumbnail_dimensions(&self, width: u32, height: u32) -> (r: (u32, u32))
        requires
            width > 0 || height > 0,
        ensures
            r == thumbnail_dims(width, height, self.config.thumbnail_size),
            r.0 <= self.config.thumbnail_size && r.1 <= self.config.thumbnail_size,
    {
        let max = self.config.thumbnail_size as u64;
        let w = width as u64;
        let h = height as u64;
        assert(max * h <= 0xffff_ffff * 0xffff_ffff && max * w <= 0xffff_ffff * 0xffff_ffff) by (nonlinear_arith)
            requires
                max <= 0xffff_ffff,
                h <= 0xffff_ffff,
                w <= 0xffff_ffff,
        ;
        if width > height {
            let t = (max * h) / w;
            assert((max as int * h as int) / (w as int) <= max as int) by (nonlinear_arith)
                requires
                    h < w,
                    w > 0,
            ;
            (self.config.thumbnail_size, t as u32)
        } else {
            let t = (max * w) / h;
            assert((max as int * w as int) / (h as int) <= max as int) by (nonlinear_arith)
                requires
                    w <= h,
                    h > 0,
            ;
            (t as u32, self.config.thumbnail_size)
        }
    }

    /// The format name of an image, given what its content suggests.
    pub fn format_name(image_path: &str, guessed: Option<String>) -> (r: String)
        ensures
            r@ == format_name_of(
                image_path@,
                match guessed {
                    Some(g) => Some(g@),
                    None => None,
                },
            ),
    {
        match extension(image_path) {
            Some(e) => lowercase(e.as_str()),
            None => match guessed {
                Some(g) => g,
                None => "unknown".to_owned(),
            },
        }
    }

    /// The image's recorded metadata. A thumbnail is planned when previews
    /// are enabled and an edge exceeds the thumbnail size; the caller writes it.
    pub fn generate_preview(&self, image_path: &str, decoded: DecodedImage, format: String) -> (r: ImageInfo)
        ensures
            r.width == decoded.width,
            r.height == decoded.height,
            r.has_alpha == decoded.has_alpha,
            r.color_type == decoded.color_type,
            r.format == format,
            (self.config.enabled && (decoded.width > self.config.thumbnail_size || decoded.height
                > self.config.thumbnail_size)) ==> (r.thumbnail_path matches Some(p) && p@ == thumbnail_path_of(
                self.preview_dir@,
                image_path@,
            )),
            !(self.config.enabled && (decoded.width > self.config.thumbnail_size || decoded.height
                > self.config.thumbnail_size)) ==> r.thumbnail_path is None,
    {
        let thumbnail_path = if self.config.enabled && (decoded.width > self.config.thumbnail_size
            || decoded.height > self.config.thumbnail_size) {
            Some(self.get_thumbnail_path(image_path))
        } else {
            None
        };
        ImageInfo {
            width: decoded.width,
            height: decoded.height,
            format,
            has_alpha: decoded.has_alpha,
            color_type: decoded.color_type,
            thumbnail_path,
        }
    }
}

} // verus!
