//! What saving scraped metadata writes into the record of a video.

use vstd::prelude::*;
use crate::artwork::ArtworkResult;
use crate::designation::{is_uncensored, is_uncensored_designation};
use crate::scrape::{copy_avatar, copy_opt_string, resolve_scraped_duration, scraped_duration, ActorAvatar, ScrapeMetadata};

verus! {

/// The fields of a video record that a scrape sets.
#[derive(Debug, Clone)]
pub struct VideoScrapeUpdate {
    pub title: String,
    pub original_title: Option<String>,
    pub studio: String,
    pub director: String,
    pub premiered: String,
    /// Seconds.
    pub duration: Option<i32>,
    /// Bit pattern of the `f64` rating.
    pub rating: Option<u64>,
    pub poster: Option<String>,
    pub thumb: Option<String>,
    pub fanart: Option<String>,
    pub local_id: String,
    pub cover_width: Option<i32>,
    pub cover_height: Option<i32>,
    pub is_uncensored: bool,
    /// A subtitle was saved with the scrape (the record then says it has one).
    pub subtitle_saved: bool,
}

/// Width and height of a cover as recorded: both when both are positive
/// (as `i32`, wrapping above `i32::MAX`), else neither.
pub fn cover_dimensions(width: u32, height: u32) -> (r: (Option<i32>, Option<i32>))
    ensures
        (width > 0 && height > 0) ==> r == (Some(width as i32), Some(height as i32)),
        !(width > 0 && height > 0) ==> r == (None::<i32>, None::<i32>),
{
    if width > 0 && height > 0 {
        (Some(width as i32), Some(height as i32))
    } else {
        (None, None)
    }
}

/// The record update for scraped metadata `meta` with the saved `artwork`:
/// the text fields copied, the duration kept when the record has a real one
/// (else the scraped minutes in seconds), the uncensored flag also set by the
/// form of the designation.
pub fn video_scrape_update(
    meta: &ScrapeMetadata,
    artwork: &ArtworkResult,
    existing_duration: Option<i32>,
    cover: (Option<i32>, Option<i32>),
    subtitle_saved: bool,
) -> (r: VideoScrapeUpdate)
    requires
        meta.duration matches Some(m) ==> -0x8000_0000_0000_0000 <= m * 60 <= 0x7fff_ffff_ffff_ffff,
    ensures
        r.title == meta.title,
        r.original_title == meta.original_title,
        r.studio == meta.studio,
        r.director == meta.director,
        r.premiered == meta.premiered,
        r.duration == scraped_duration(existing_duration, meta.duration),
        r.rating == meta.score,
        r.poster == artwork.poster,
        r.thumb == artwork.thumb,
        r.fanart == artwork.fanart,
        r.local_id == meta.local_id,
        r.cover_width == cover.0,
        r.cover_height == cover.1,
        r.is_uncensored == (meta.is_uncensored || is_uncensored(meta.local_id@)),
        r.subtitle_saved == subtitle_saved,
{
    VideoScrapeUpdate {
        title: meta.title.clone(),
        original_title: copy_opt_string(&meta.original_title),
        studio: meta.studio.clone(),
        director: meta.director.clone(),
        premiered: meta.premiered.clone(),
        duration: resolve_scraped_duration(existing_duration, meta.duration),
        rating: meta.score,
        poster: copy_opt_string(&artwork.poster),
        thumb: copy_opt_string(&artwork.thumb),
        fanart: copy_opt_string(&artwork.fanart),
        local_id: meta.local_id.clone(),
        cover_width: cover.0,
        cover_height: cover.1,
        is_uncensored: meta.is_uncensored || is_uncensored_designation(meta.local_id.as_str()),
        subtitle_saved,
    }
}

/// The avatars worth recording: those with an avatar URL or an actor code.
pub open spec fn recorded_avatars(v: Seq<ActorAvatar>) -> Seq<ActorAvatar> {
    v.filter(|a: ActorAvatar| a.avatar_url@.len() > 0 || a.star_code@.len() > 0)
}

pub fn avatars_to_record(avatars: &Vec<ActorAvatar>) -> (r: Vec<ActorAvatar>)
    ensures
        r@ == recorded_avatars(avatars@),
{
    let ghost f = |a: ActorAvatar| a.avatar_url@.len() > 0 || a.star_code@.len() > 0;
    let mut out: Vec<ActorAvatar> = Vec::new();
    let mut i: usize = 0;
    while i < avatars.len()
        invariant
            i <= avatars.len(),
            f == (|a: ActorAvatar| a.avatar_url@.len() > 0 || a.star_code@.len() > 0),
            out@ == avatars@.take(i as int).filter(f),
        decreases avatars.len() - i,
    {
        reveal_with_fuel(Seq::<_>::filter, 1);
        assert(avatars@.take(i + 1).drop_last() =~= avatars@.take(i as int));
        let a = &avatars[i];
        if !a.avatar_url.as_str().is_empty() || !a.star_code.as_str().is_empty() {
            out.push(copy_avatar(a));
        }
        i += 1;
    }
    assert(avatars@.take(avatars.len() as int) =~= avatars@);
    out
}

} // verus!
