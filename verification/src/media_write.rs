//! Writing the results of a scrape beside a video: where they go, which
//! artwork is kept, which previews are fetched, whether a subtitle is looked
//! for, and what the caller is told. Each step that fails is recorded and the
//! others still run; the caller carries out the file and network work.
use vstd::prelude::*;
use crate::artwork::ArtworkResult;
use crate::storage::{follow_video, follow_video_dir_stem, MediaAssetTarget};
use crate::text::{chars_of, concat, is_blank_str, owned, string_of, string_views, trim};

verus! {

/// Directory and stem the results go to: those of the storage target when it
/// could be resolved, else those beside the video.
pub open spec fn media_location_of(target: Option<(Seq<char>, Seq<char>)>, video_path: Seq<char>) -> (Seq<char>, Seq<char>) {
    match target {
        Some(t) => t,
        None => follow_video(video_path),
    }
}

pub open spec fn target_view(t: Option<MediaAssetTarget>) -> Option<(Seq<char>, Seq<char>)> {
    match t {
        Some(x) => Some((x.dir@, x.stem@)),
        None => None,
    }
}

pub fn media_location(target: &Option<MediaAssetTarget>, video_path: &str) -> (r: (String, String))
    ensures
        (r.0@, r.1@) == media_location_of(target_view(*target), video_path@),
{
    match target {
        Some(t) => (owned(t.dir.as_str()), owned(t.stem.as_str())),
        None => follow_video_dir_stem(video_path),
    }
}

/// A cover was produced when a background or a poster came out.
pub open spec fn cover_was_produced(produced: ArtworkResult) -> bool {
    produced.fanart is Some || produced.poster is Some
}

/// The artwork recorded after a scrape: the produced one when a cover came
/// out, else the artwork the video had (so that a failed download does not
/// clear it); and whether a cover came out.
pub fn artwork_to_keep(produced: ArtworkResult, fallback: ArtworkResult) -> (r: (ArtworkResult, bool))
    ensures
        r.1 == cover_was_produced(produced),
        r.0 == (if r.1 {
            produced
        } else {
            fallback
        }),
{
    let made = produced.fanart.is_some() || produced.poster.is_some();
    if made {
        (produced, true)
    } else {
        (fallback, false)
    }
}

/// The previews to fetch into `extrafanart`, numbered from 1 in order.
pub open spec fn preview_items_of(thumbs: Seq<Seq<char>>) -> Seq<(int, Seq<char>)> {
    Seq::new(thumbs.len(), |i: int| (i + 1, thumbs[i]))
}

pub fn preview_items(thumbs: &Vec<String>) -> (r: Vec<(usize, String)>)
    ensures
        r@.len() == thumbs@.len(),
        forall|i: int|
            0 <= i < r@.len() ==> (#[trigger] r@[i]).0 as int == preview_items_of(string_views(thumbs@))[i].0
                && r@[i].1@ == preview_items_of(string_views(thumbs@))[i].1,
{
    let mut out: Vec<(usize, String)> = Vec::new();
    let mut i: usize = 0;
    while i < thumbs.len()
        invariant
            i <= thumbs.len(),
            out@.len() == i,
            forall|j: int|
                0 <= j < i ==> (#[trigger] out@[j]).0 as int == j + 1 && out@[j].1@ == thumbs@[j]@,
        decreases thumbs.len() - i,
    {
        out.push((i + 1, owned(thumbs[i].as_str())));
        i += 1;
    }
    out
}

/// A subtitle is looked for when automatic subtitles are on and the video
/// has a designation.
pub fn wants_subtitle(auto_download: bool, local_id: &str) -> (r: bool)
    ensures
        r == (auto_download && trim(local_id@).len() > 0),
{
    auto_download && !is_blank_str(local_id)
}

/// A step of writing the results that may fail without stopping the others.
#[derive(Debug, Clone, Copy, PartialEq, Eq, Structural)]
pub enum MediaStep {
    /// Creating the metadata directory and its `.strm`.
    PrepareDir,
    /// Fetching the previews.
    Previews,
    /// Writing the NFO.
    Nfo,
    /// Fetching the subtitle.
    Subtitle,
    /// Recording the results in the library.
    Database,
}

/// The words a failed step is reported with, before its error.
pub open spec fn step_label(step: MediaStep) -> Seq<char> {
    match step {
        MediaStep::PrepareDir => "元数据目录/.strm 准备失败: "@,
        MediaStep::Previews => "预览图下载失败: "@,
        MediaStep::Nfo => "NFO 生成失败: "@,
        MediaStep::Subtitle => "字幕下载失败: "@,
        MediaStep::Database => "数据库更新失败: "@,
    }
}

/// The report of a failed step.
pub fn step_error(step: MediaStep, error: &str) -> (r: String)
    ensures
        r@ == step_label(step) + error@,
{
    let label = match step {
        MediaStep::PrepareDir => chars_of("元数据目录/.strm 准备失败: "),
        MediaStep::Previews => chars_of("预览图下载失败: "),
        MediaStep::Nfo => chars_of("NFO 生成失败: "),
        MediaStep::Subtitle => chars_of("字幕下载失败: "),
        MediaStep::Database => chars_of("数据库更新失败: "),
    };
    string_of(&concat(&label, &chars_of(error)))
}

/// What writing the results of a scrape came to.
#[derive(Debug, Clone)]
pub struct MediaWriteOutcome {
    /// The artwork to record (produced, or the one kept).
    pub artwork: ArtworkResult,
    /// A new cover came out.
    pub cover_produced: bool,
    /// The NFO was written.
    pub nfo_saved: bool,
    /// A subtitle was written.
    pub subtitle_saved: bool,
    /// The reports of the steps that failed, in order.
    pub errors: Vec<String>,
}

/// What saving a scrape of one video reports.
#[derive(Debug, Clone)]
pub struct ScrapeSaveResult {
    pub cover_saved: bool,
    pub nfo_saved: bool,
    pub db_updated: bool,
    pub errors: Vec<String>,
}

/// The report of a scrape save: what writing the results came to, then the
/// library update, whose failure (`db_error`) is added to the errors.
pub fn scrape_save_result(outcome: &MediaWriteOutcome, db_error: Option<&str>) -> (r: ScrapeSaveResult)
    ensures
        r.cover_saved == outcome.cover_produced,
        r.nfo_saved == outcome.nfo_saved,
        r.db_updated == (db_error is None),
        string_views(r.errors@) == match db_error {
            Some(e) => string_views(outcome.errors@).push(step_label(MediaStep::Database) + e@),
            None => string_views(outcome.errors@),
        },
{
    let mut errors: Vec<String> = Vec::new();
    let mut i: usize = 0;
    while i < outcome.errors.len()
        invariant
            i <= outcome.errors.len(),
            string_views(errors@) == string_views(outcome.errors@).take(i as int),
        decreases outcome.errors.len() - i,
    {
        let ghost before = string_views(errors@);
        errors.push(owned(outcome.errors[i].as_str()));
        assert(string_views(errors@) =~= before.push(outcome.errors@[i as int]@));
        assert(string_views(outcome.errors@).take(i + 1) =~= string_views(outcome.errors@).take(i as int).push(
            outcome.errors@[i as int]@,
        ));
        i += 1;
    }
    assert(string_views(outcome.errors@).take(outcome.errors.len() as int) =~= string_views(outcome.errors@));
    let db_updated = match db_error {
        Some(e) => {
            let ghost before = string_views(errors@);
            errors.push(step_error(MediaStep::Database, e));
            assert(string_views(errors@) =~= before.push(step_label(MediaStep::Database) + e@));
            false
        },
        None => true,
    };
    ScrapeSaveResult {
        cover_saved: outcome.cover_produced,
        nfo_saved: outcome.nfo_saved,
        db_updated,
        errors,
    }
}

} // verus!
