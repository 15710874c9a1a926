//! The standard artwork set of a video: `<stem>-poster.jpg` (portrait),
//! `<stem>-fanart.jpg` and `<stem>-thumb.jpg` (landscape).

use vstd::prelude::*;
use crate::paths::{join, join_chars};
use crate::text::{chars_of, concat, is_blank, is_blank_str, string_of};

verus! {

/// Suffix of the portrait poster.
pub const POSTER_SUFFIX: &'static str = "poster";
/// Suffix of the landscape background.
pub const FANART_SUFFIX: &'static str = "fanart";
/// Suffix of the landscape thumbnail.
pub const THUMB_SUFFIX: &'static str = "thumb";
/// Suffix of the small grid thumbnail.
pub const THUMB_SMALL_SUFFIX: &'static str = "thumbsm";
/// Longest edge (px) of the grid thumbnail.
pub const COVER_THUMB_MAX_EDGE: u32 = 480;
/// Shortest edge (px) below which a preview image is discarded.
pub const MIN_PREVIEW_EDGE: u32 = 250;

/// Local paths of the produced artwork (absent items are `None`).
#[derive(Debug, Clone, Default)]
pub struct ArtworkResult {
    pub poster: Option<String>,
    pub fanart: Option<String>,
    pub thumb: Option<String>,
}

impl ArtworkResult {
    /// The image whose size is recorded for the video: the background first,
    /// then the thumbnail, then the poster.
    pub fn primary_dimension_path(&self) -> (r: Option<&str>)
        ensures
            r matches Some(p) ==> (match (self.fanart, self.thumb, self.poster) {
                (Some(f), _, _) => p@ == f@,
                (None, Some(t), _) => p@ == t@,
                (None, None, Some(q)) => p@ == q@,
                _ => false,
            }),
            r is None <==> (self.fanart is None && self.thumb is None && self.poster is None),
    {
        match &self.fanart {
            Some(f) => Some(f.as_str()),
            None => match &self.thumb {
                Some(t) => Some(t.as_str()),
                None => match &self.poster {
                    Some(p) => Some(p.as_str()),
                    None => None,
                },
            },
        }
    }
}

/// File name of an artwork item: `<stem>-<suffix>.jpg`.
pub open spec fn artwork_file_name(stem: Seq<char>, suffix: Seq<char>) -> Seq<char> {
    stem + "-"@ + suffix + ".jpg"@
}

/// Path of an artwork item: `<dir>/<stem>-<suffix>.jpg`.
pub fn artwork_path(dir: &str, stem: &str, suffix: &str) -> (r: String)
    ensures
        r@ == join(dir@, artwork_file_name(stem@, suffix@)),
{
    let d = chars_of(dir);
    let s = chars_of(stem);
    let dash = chars_of("-");
    let suf = chars_of(suffix);
    let jpg = chars_of(".jpg");
    let a = concat(&s, &dash);
    let b = concat(&a, &suf);
    let name = concat(&b, &jpg);
    let p = join_chars(&d, &name);
    string_of(&p)
}


/// A preview whose shorter edge is under [`MIN_PREVIEW_EDGE`] is too small
/// (such as a grid thumbnail) to be kept.
pub fn is_undersized_dims(width: u32, height: u32) -> (r: bool)
    ensures
        r == ((if width < height {
            width
        } else {
            height
        }) < MIN_PREVIEW_EDGE),
{
    let short = if width < height {
        width
    } else {
        height
    };
    short < MIN_PREVIEW_EDGE
}

/// Orientation of a cover of the given size: `portrait` when taller than
/// wide, else `landscape`; none for an empty size.
pub fn orientation_of_dims(width: u32, height: u32) -> (r: Option<&'static str>)
    ensures
        (width == 0 || height == 0) ==> r is None,
        (width > 0 && height > 0) ==> (r matches Some(o) && o@ == (if height > width {
            "portrait"@
        } else {
            "landscape"@
        })),
{
    if width == 0 || height == 0 {
        None
    } else if height > width {
        Some("portrait")
    } else {
        Some("landscape")
    }
}

/// The image to make the landscape artwork from: the cover, else the poster,
/// none when both are blank.
pub fn landscape_source<'a>(cover_url: &'a str, poster_url: &'a str) -> (r: Option<&'a str>)
    ensures
        !is_blank(cover_url@) ==> r == Some(cover_url),
        is_blank(cover_url@) && !is_blank(poster_url@) ==> r == Some(poster_url),
        is_blank(cover_url@) && is_blank(poster_url@) ==> r is None,
{
    if !is_blank_str(cover_url) {
        Some(cover_url)
    } else if !is_blank_str(poster_url) {
        Some(poster_url)
    } else {
        None
    }
}

} // verus!
