//! Media metadata: the per-file details captured at extraction time, the
//! persisted row types, and the MIME type derived from a file's extension.
//!
//! An embedding vector is carried as the raw bit patterns of its 32-bit
//! float components; the store logic moves the components around without
//! interpreting them, so no floating point enters the verified code.

use vstd::prelude::*;

use crate::pathname::{
    extension_chars, extension_of, is_ext_bmp, is_ext_gif, is_ext_jpeg, is_ext_jpg, is_ext_png,
    is_ext_tiff, is_ext_webp, lower_all, lower_ext,
};
use image::GenericImageView;

verus! {

#[verifier::external_type_specification]
#[verifier::external_body]
pub struct ExDynamicImage(image::DynamicImage);

/// Relies on `image::DynamicImage::width` (through `GenericImageView`):
/// the pixel width of the decoded image.
#[verifier::external_body]
pub(crate) fn image_width(img: &image::DynamicImage) -> u32 {
    img.width()
}

/// Relies on `image::DynamicImage::height` (through `GenericImageView`):
/// the pixel height of the decoded image.
#[verifier::external_body]
pub(crate) fn image_height(img: &image::DynamicImage) -> u32 {
    img.height()
}

/// What extraction gathers about one file: the decoded raster image plus
/// the plain facts read off the path and the directory entry.
pub struct MediaDetails {
    pub image: image::DynamicImage,
    pub filename: String,
    pub file_path: String,
    pub file_size: u64,
}

/// The MIME type matching a path's extension; `application/octet-stream`
/// where the extension is absent or unknown.
pub open spec fn content_type_of(path: Seq<char>) -> Seq<char> {
    match extension_of(path) {
        Option::Some(e) => {
            let l = lower_ext(e);
            if is_ext_jpg(l) || is_ext_jpeg(l) {
                "image/jpeg"@
            } else if is_ext_png(l) {
                "image/png"@
            } else if is_ext_gif(l) {
                "image/gif"@
            } else if is_ext_webp(l) {
                "image/webp"@
            } else if is_ext_tiff(l) {
                "image/tiff"@
            } else if is_ext_bmp(l) {
                "image/bmp"@
            } else {
                "application/octet-stream"@
            }
        },
        Option::None => "application/octet-stream"@,
    }
}

/// Derive the MIME type recorded for a file from its extension.
pub fn content_type_for(path: &str) -> (r: String)
    ensures
        r@ == content_type_of(path@),
{
    match extension_chars(path) {
        Some(e) => {
            let l = lower_all(&e);
            if l.len() == 3 {
                let a = l[0];
                let b = l[1];
                let c = l[2];
                if a == 'j' && b == 'p' && c == 'g' {
                    "image/jpeg".to_owned()
                } else if a == 'p' && b == 'n' && c == 'g' {
                    "image/png".to_owned()
                } else if a == 'g' && b == 'i' && c == 'f' {
                    "image/gif".to_owned()
                } else if a == 'b' && b == 'm' && c == 'p' {
                    "image/bmp".to_owned()
                } else {
                    "application/octet-stream".to_owned()
                }
            } else if l.len() == 4 {
                let a = l[0];
                let b = l[1];
                let c = l[2];
                let d = l[3];
                if a == 'j' && b == 'p' && c == 'e' && d == 'g' {
                    "image/jpeg".to_owned()
                } else if a == 'w' && b == 'e' && c == 'b' && d == 'p' {
                    "image/webp".to_owned()
                } else if a == 't' && b == 'i' && c == 'f' && d == 'f' {
                    "image/tiff".to_owned()
                } else {
                    "application/octet-stream".to_owned()
                }
            } else {
                "application/octet-stream".to_owned()
            }
        },
        None => "application/octet-stream".to_owned(),
    }
}

/// One persisted media row.
pub struct MediaAsset {
    pub id: u128,
    pub filename: String,
    pub content_type: String,
    pub file_path: String,
    pub file_size: u64,
    pub width: u32,
    pub height: u32,
    pub metadata: Option<String>,
}

/// One persisted embedding row.  `vector` holds the raw bit pattern of each
/// 32-bit float component of the unit-normalized embedding, in order.
pub struct EmbeddingRecord {
    pub id: u128,
    pub media_id: u128,
    pub model_name: String,
    pub model_version: String,
    pub vector: Vec<u32>,
}

impl MediaAsset {
    /// Assemble the media row for one extracted file: the caller-assigned
    /// fresh id, the extracted facts, the MIME type derived from the path,
    /// and no tagging payload yet.  Width and height are read from the
    /// decoded image.
    pub fn from_details(details: &MediaDetails, id: u128) -> (a: MediaAsset)
        ensures
            a.id == id,
            a.filename@ == details.filename@,
            a.file_path@ == details.file_path@,
            a.file_size == details.file_size,
            a.content_type@ == content_type_of(details.file_path@),
            a.metadata is None,
    {
        let content_type = content_type_for(details.file_path.as_str());
        MediaAsset {
            id,
            filename: details.filename.clone(),
            content_type,
            file_path: details.file_path.clone(),
            file_size: details.file_size,
            width: image_width(&details.image),
            height: image_height(&details.image),
            metadata: None,
        }
    }
}

impl EmbeddingRecord {
    /// Assemble the embedding row that accompanies a media row: fresh id,
    /// the owning asset's id, the producing model's identity, and the
    /// vector's component bit patterns.
    pub fn new(
        id: u128,
        media_id: u128,
        model_name: String,
        model_version: String,
        vector: Vec<u32>,
    ) -> (r: EmbeddingRecord)
        ensures
            r.id == id,
            r.media_id == media_id,
            r.model_name@ == model_name@,
            r.model_version@ == model_version@,
            r.vector@ == vector@,
    {
        EmbeddingRecord { id, media_id, model_name, model_version, vector }
    }
}

} // verus!
