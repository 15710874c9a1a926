//! Application settings: the data, their defaults, and the normalisation
//! applied after loading or saving.

use vstd::prelude::*;
use crate::finder::{default_download_sites, download_site_table, SiteDefView};
use crate::seqs::{first_match, lemma_first_match, lemma_first_match_at, lemma_first_match_step};
use crate::sources::{copy_site, default_site_table, default_sites, site_views, ResourceSite, SiteView};
use crate::text::{lemma_trim_idempotent, list_contains, 
    chars_of, eq_ignore_case, eq_ignore_case_chars, is_blank, is_blank_str, is_upper_ascii, is_ws,
    lower, lower_seq, owned, same, string_of, string_views, trim, trim_end, trim_start, trim_str,
};

verus! {

/// Value of `storageMode` that selects the independent metadata directory.
pub const METADATA_MODE_INDEPENDENT: &'static str = "independent";

/// Special `default_site`: pick the enabled site with the best average score.
pub const AUTO_HIGHEST_SCORE_SITE: &'static str = "__auto_highest_score__";

/// Where NFO files and artwork are stored.
#[derive(Debug, Clone)]
pub struct MetadataSettings {
    /// `follow_video` (default) or `independent`.
    pub storage_mode: String,
    /// Root of the independent metadata directory.
    pub root_dir: String,
    /// Download a simplified-Chinese subtitle after a successful match.
    pub auto_download_subtitle: bool,
}

pub fn default_metadata_storage_mode() -> (r: String)
    ensures
        r@ == "follow_video"@,
{
    owned("follow_video")
}

impl Default for MetadataSettings {
    fn default() -> (r: Self)
        ensures
            r.storage_mode@ == "follow_video"@,
            r.root_dir@ == Seq::<char>::empty(),
            r.auto_download_subtitle,
    {
        MetadataSettings {
            storage_mode: default_metadata_storage_mode(),
            root_dir: String::new(),
            auto_download_subtitle: true,
        }
    }
}

impl MetadataSettings {
    /// Independent mode: that mode is selected and the root is not blank.
    pub open spec fn spec_is_independent(&self) -> bool {
        self.storage_mode@ == METADATA_MODE_INDEPENDENT@ && !is_blank(self.root_dir@)
    }

    pub fn is_independent(&self) -> (r: bool)
        ensures
            r == self.spec_is_independent(),
    {
        let mode = chars_of(self.storage_mode.as_str());
        let ind = chars_of(METADATA_MODE_INDEPENDENT);
        same(&mode, &ind) && !is_blank_str(self.root_dir.as_str())
    }
}

/// Update channel.
#[derive(Debug, Clone)]
pub struct UpdateSettings {
    /// `stable`, `rc` or `beta`.
    pub channel: String,
}

pub fn default_update_channel() -> (r: String)
    ensures
        r@ == "stable"@,
{
    owned("stable")
}

impl Default for UpdateSettings {
    fn default() -> (r: Self)
        ensures
            r.channel@ == "stable"@,
    {
        UpdateSettings { channel: default_update_channel() }
    }
}

/// Run configuration of the MetaTube sidecar.
#[derive(Debug, Clone)]
pub struct MetaTubeConfig {
    pub enabled: bool,
    pub providers: Vec<String>,
    pub extra_args: Vec<String>,
}

/// MetaTube aggregate source settings.
#[derive(Debug, Clone)]
pub struct MetaTubeSettings {
    pub enabled: bool,
    /// Preferred providers (empty: all).
    pub providers: Vec<String>,
}

impl Default for MetaTubeSettings {
    fn default() -> (r: Self)
        ensures
            r.enabled,
            r.providers@.len() == 0,
    {
        MetaTubeSettings { enabled: true, providers: Vec::new() }
    }
}

impl MetaTubeSettings {
    /// The sidecar configuration derived from these settings.
    pub fn to_config(&self) -> (r: MetaTubeConfig)
        ensures
            r.enabled == self.enabled,
            r.providers@ == self.providers@,
            r.extra_args@.len() == 0,
    {
        MetaTubeConfig { enabled: self.enabled, providers: self.providers.clone(), extra_args: Vec::new() }
    }
}

#[derive(Debug, Clone)]
pub struct ThemeSettings {
    pub mode: String,
    pub language: String,
    pub proxy: ProxySettings,
}

pub fn default_theme_mode() -> (r: String)
    ensures
        r@ == "system"@,
{
    owned("system")
}

pub fn default_language() -> (r: String)
    ensures
        r@ == "zh-CN"@,
{
    owned("zh-CN")
}

#[derive(Debug, Clone)]
pub struct ProxySettings {
    pub proxy_type: String,
    pub host: String,
    pub port: u16,
}

pub fn default_proxy_type() -> (r: String)
    ensures
        r@ == "system"@,
{
    owned("system")
}

pub fn default_proxy_port() -> (r: u16)
    ensures
        r == 7890,
{
    7890
}

impl Default for ProxySettings {
    fn default() -> (r: Self)
        ensures
            r.proxy_type@ == "system"@,
            r.host@ == Seq::<char>::empty(),
            r.port == 7890,
    {
        ProxySettings { proxy_type: owned("system"), host: String::new(), port: 7890 }
    }
}

#[derive(Debug, Clone)]
pub struct GeneralSettings {
    pub scan_paths: Vec<String>,
    pub view_mode: String,
    pub play_method: String,
    pub cover_click_to_play: bool,
    pub cover_type: String,
    /// Minimum column width (px) of the actor work grid.
    pub actor_card_size: u32,
    /// Extra video extensions (no leading dot, lower case).
    pub video_extensions: Vec<String>,
}

pub fn default_play_method() -> (r: String)
    ensures
        r@ == "software"@,
{
    owned("software")
}

pub fn default_actor_card_size() -> (r: u32)
    ensures
        r == 160,
{
    160
}

pub fn default_view_mode() -> (r: String)
    ensures
        r@ == "card"@,
{
    owned("card")
}

pub fn default_cover_type() -> (r: String)
    ensures
        r@ == "landscape"@,
{
    owned("landscape")
}

pub fn default_true() -> (r: bool)
    ensures
        r,
{
    true
}

pub fn default_false() -> (r: bool)
    ensures
        !r,
{
    false
}

/// A download (link) site with the user's state over it.
#[derive(Debug, Clone)]
pub struct DownloadSource {
    pub id: String,
    pub name: String,
    pub url_template: String,
    pub enabled: bool,
    /// Successful downloads so far (ranks the site).
    pub success_count: u32,
}

pub struct DownloadSourceView {
    pub id: Seq<char>,
    pub name: Seq<char>,
    pub url_template: Seq<char>,
    pub enabled: bool,
    pub success_count: u32,
}

impl View for DownloadSource {
    type V = DownloadSourceView;

    open spec fn view(&self) -> DownloadSourceView {
        DownloadSourceView {
            id: self.id@,
            name: self.name@,
            url_template: self.url_template@,
            enabled: self.enabled,
            success_count: self.success_count,
        }
    }
}

pub open spec fn source_views(v: Seq<DownloadSource>) -> Seq<DownloadSourceView> {
    v.map_values(|s: DownloadSource| s@)
}

pub open spec fn fresh_source(d: SiteDefView) -> DownloadSourceView {
    DownloadSourceView {
        id: d.id,
        name: d.name,
        url_template: d.url_template,
        enabled: true,
        success_count: 0,
    }
}

/// The built-in download sites as sources: all enabled, never used.
pub open spec fn default_source_table() -> Seq<DownloadSourceView> {
    download_site_table().map_values(|d: SiteDefView| fresh_source(d))
}

pub fn default_download_sources() -> (r: Vec<DownloadSource>)
    ensures
        source_views(r@) == default_source_table(),
{
    let defs = default_download_sites();
    let mut r: Vec<DownloadSource> = Vec::new();
    let mut i: usize = 0;
    while i < defs.len()
        invariant
            i <= defs.len(),
            crate::finder::def_views(defs@) == download_site_table(),
            source_views(r@) == default_source_table().take(i as int),
        decreases defs.len() - i,
    {
        let d = &defs[i];
        assert(crate::finder::def_views(defs@)[i as int] == defs@[i as int]@);
        let src = DownloadSource {
            id: owned(d.id),
            name: owned(d.name),
            url_template: owned(d.url_template),
            enabled: true,
            success_count: 0,
        };
        assert(src@ == fresh_source(download_site_table()[i as int]));
        assert(default_source_table()[i as int] == fresh_source(download_site_table()[i as int]));
        let ghost before = r@;
        r.push(src);
        assert(source_views(r@) =~= source_views(before).push(src@));
        i += 1;
        assert(source_views(r@) =~= default_source_table().take(i as int));
    }
    r
}

pub open spec fn same_source_id(id: Seq<char>) -> spec_fn(DownloadSourceView) -> bool {
    |s: DownloadSourceView| s.id == id
}

/// A default source with the state of the first saved source of the same id.
pub open spec fn merged_source(d: DownloadSourceView, saved: Seq<DownloadSourceView>) -> DownloadSourceView {
    match first_match(saved, same_source_id(d.id)) {
        Some(k) => DownloadSourceView {
            id: d.id,
            name: d.name,
            url_template: d.url_template,
            enabled: saved[k].enabled,
            success_count: saved[k].success_count,
        },
        None => d,
    }
}

/// The built-in sources, carrying over the saved state; sites no longer built
/// in are dropped.
pub open spec fn merge_sources(saved: Seq<DownloadSourceView>) -> Seq<DownloadSourceView> {
    default_source_table().map_values(|d: DownloadSourceView| merged_source(d, saved))
}

/// The first saved source with a given id, found at `k`, is what
/// `first_match` finds.
proof fn lemma_first_saved<T>(saved: Seq<T>, f: spec_fn(T) -> bool, k: int)
    requires
        0 <= k < saved.len(),
        f(saved[k]),
        forall|j: int| 0 <= j < k ==> !f(#[trigger] saved[j]),
    ensures
        first_match(saved, f) == Some(k),
{
    lemma_first_match(saved, f);
}

/// Merging keeps the built-in sources, in their order, with their ids, names
/// and templates. Each takes the enabled flag and the success count of the
/// first saved source with its id, so a source the user switched off stays
/// off; one that no saved source names stays as built in: enabled, never used.
pub proof fn lemma_merge_sources_carries_state(saved: Seq<DownloadSourceView>)
    ensures
        merge_sources(saved).len() == default_source_table().len(),
        forall|i: int|
            0 <= i < default_source_table().len() ==> (#[trigger] merge_sources(saved)[i]).id
                == default_source_table()[i].id && merge_sources(saved)[i].name
                == default_source_table()[i].name && merge_sources(saved)[i].url_template
                == default_source_table()[i].url_template,
        forall|i: int, k: int|
            0 <= i < default_source_table().len() && 0 <= k < saved.len() && (#[trigger] saved[k]).id
                == default_source_table()[i].id && (forall|j: int|
                0 <= j < k ==> (#[trigger] saved[j]).id != saved[k].id) ==> (#[trigger] merge_sources(saved)[i]).enabled
                == saved[k].enabled && merge_sources(saved)[i].success_count == saved[k].success_count,
        forall|i: int|
            0 <= i < default_source_table().len() && (forall|k: int|
                0 <= k < saved.len() ==> (#[trigger] saved[k]).id != default_source_table()[i].id)
                ==> (#[trigger] merge_sources(saved)[i]).enabled && merge_sources(saved)[i].success_count
                == 0,
{
    assert forall|i: int, k: int|
        0 <= i < default_source_table().len() && 0 <= k < saved.len() && (#[trigger] saved[k]).id
            == default_source_table()[i].id && (forall|j: int|
            0 <= j < k ==> (#[trigger] saved[j]).id != saved[k].id) implies (#[trigger] merge_sources(saved)[i]).enabled
        == saved[k].enabled && merge_sources(saved)[i].success_count == saved[k].success_count by {
        let f = same_source_id(default_source_table()[i].id);
        assert forall|j: int| 0 <= j < k implies !f(#[trigger] saved[j]) by {
            assert(saved[j].id != saved[k].id);
        }
        lemma_first_saved(saved, f, k);
    }
    assert forall|i: int|
        0 <= i < default_source_table().len() && (forall|k: int|
            0 <= k < saved.len() ==> (#[trigger] saved[k]).id != default_source_table()[i].id)
            implies (#[trigger] merge_sources(saved)[i]).enabled && merge_sources(saved)[i].success_count
        == 0 by {
        let f = same_source_id(default_source_table()[i].id);
        lemma_first_match(saved, f);
        if first_match(saved, f) is Some {
            let k = first_match(saved, f)->0;
            assert(saved[k].id != default_source_table()[i].id);
        }
    }
}

/// A copy of a download source.
pub fn copy_source(s: &DownloadSource) -> (r: DownloadSource)
    ensures
        r@ == s@,
{
    DownloadSource {
        id: s.id.clone(),
        name: s.name.clone(),
        url_template: s.url_template.clone(),
        enabled: s.enabled,
        success_count: s.success_count,
    }
}

fn find_source(saved: &Vec<DownloadSource>, id: &String) -> (r: Option<usize>)
    ensures
        r matches Some(k) ==> first_match(source_views(saved@), same_source_id(id@)) == Some(
            k as int,
        ) && k < saved.len(),
        r is None ==> first_match(source_views(saved@), same_source_id(id@)) is None,
{
    let ghost sv = source_views(saved@);
    let ghost f = same_source_id(id@);
    let idv = chars_of(id.as_str());
    let mut i: usize = 0;
    while i < saved.len()
        invariant
            i <= saved.len(),
            sv == source_views(saved@),
            f == same_source_id(id@),
            idv@ == id@,
            first_match(sv.take(i as int), f) is None,
        decreases saved.len() - i,
    {
        let sid = chars_of(saved[i].id.as_str());
        if same(&sid, &idv) {
            proof {
                lemma_first_match_at(sv, f, i as int);
            }
            return Some(i);
        }
        proof {
            lemma_first_match_step(sv, f, i as int);
        }
        i += 1;
    }
    assert(sv.take(saved.len() as int) =~= sv);
    None
}

/// The built-in download sources with the enabled state and success count of
/// the saved ones carried over.
pub fn merge_download_sources(saved: &Vec<DownloadSource>) -> (r: Vec<DownloadSource>)
    ensures
        source_views(r@) == merge_sources(source_views(saved@)),
{
    let defaults = default_download_sources();
    let mut r: Vec<DownloadSource> = Vec::new();
    let mut i: usize = 0;
    while i < defaults.len()
        invariant
            i <= defaults.len(),
            source_views(defaults@) == default_source_table(),
            source_views(r@) == merge_sources(source_views(saved@)).take(i as int),
        decreases defaults.len() - i,
    {
        let d = &defaults[i];
        proof {
            lemma_first_match(source_views(saved@), same_source_id(d.id@));
        }
        let site = match find_source(saved, &d.id) {
            Some(k) => DownloadSource {
                id: d.id.clone(),
                name: d.name.clone(),
                url_template: d.url_template.clone(),
                enabled: saved[k].enabled,
                success_count: saved[k].success_count,
            },
            None => copy_source(d),
        };
        assert(source_views(defaults@)[i as int] == defaults@[i as int]@);
        assert(site@ == merge_sources(source_views(saved@))[i as int]);
        let ghost before = r@;
        r.push(site);
        assert(source_views(r@) =~= source_views(before).push(site@));
        i += 1;
        assert(source_views(r@) =~= merge_sources(source_views(saved@)).take(i as int));
    }
    r
}

/// A downloader tool.
#[derive(Debug, Clone)]
pub struct DownloaderTool {
    pub name: String,
    pub executable: String,
    pub custom_path: Option<String>,
    pub enabled: bool,
    pub status: Option<String>,
}

/// Download settings.
#[derive(Debug, Clone)]
pub struct DownloadSettings {
    pub save_path: String,
    pub concurrent: u32,
    pub auto_retry: bool,
    pub max_retries: u32,
    pub downloader_priority: Vec<String>,
    pub tools: Vec<DownloaderTool>,
    pub auto_scrape: bool,
    pub sources: Vec<DownloadSource>,
}

/// Replaces the download sources by the built-in list with the saved state
/// carried over; every other field is left as it was.
pub fn normalize_download_settings(download: &mut DownloadSettings)
    ensures
        source_views(final(download).sources@) == merge_sources(source_views(old(download).sources@)),
        final(download).save_path == old(download).save_path,
        final(download).concurrent == old(download).concurrent,
        final(download).auto_retry == old(download).auto_retry,
        final(download).max_retries == old(download).max_retries,
        final(download).downloader_priority == old(download).downloader_priority,
        final(download).tools == old(download).tools,
        final(download).auto_scrape == old(download).auto_scrape,
{
    let merged = merge_download_sources(&download.sources);
    download.sources = merged;
}

fn make_tool(name: &str) -> (r: DownloaderTool)
    ensures
        r.name@ == name@,
        r.executable@ == name@,
        r.custom_path is None,
        r.enabled,
        r.status is None,
{
    DownloaderTool {
        name: owned(name),
        executable: owned(name),
        custom_path: None,
        enabled: true,
        status: None,
    }
}

impl Default for DownloadSettings {
    fn default() -> (r: Self)
        ensures
            r.save_path@ == Seq::<char>::empty(),
            r.concurrent == 3,
            r.auto_retry,
            r.max_retries == 3,
            string_views(r.downloader_priority@) == seq!["N_m3u8DL-RE"@, "ffmpeg"@],
            r.tools@.len() == 2,
            r.tools@[0].name@ == "N_m3u8DL-RE"@ && r.tools@[0].executable@ == "N_m3u8DL-RE"@,
            r.tools@[1].name@ == "ffmpeg"@ && r.tools@[1].executable@ == "ffmpeg"@,
            forall|i: int| 0 <= i < 2 ==> r.tools@[i].enabled && r.tools@[i].custom_path is None
                && r.tools@[i].status is None,
            r.auto_scrape,
            source_views(r.sources@) == default_source_table(),
    {
        let mut prio: Vec<String> = Vec::new();
        prio.push(owned("N_m3u8DL-RE"));
        prio.push(owned("ffmpeg"));
        assert(string_views(prio@) =~= seq!["N_m3u8DL-RE"@, "ffmpeg"@]);
        let mut tools: Vec<DownloaderTool> = Vec::new();
        tools.push(make_tool("N_m3u8DL-RE"));
        tools.push(make_tool("ffmpeg"));
        DownloadSettings {
            save_path: String::new(),
            concurrent: 3,
            auto_retry: true,
            max_retries: 3,
            downloader_priority: prio,
            tools,
            auto_scrape: true,
            sources: default_download_sources(),
        }
    }
}

// ------------------------------------------------------------------
// Anti-blocking toolbox
// ------------------------------------------------------------------

/// Rate limiting, retries, fingerprint and proxy rotation.
#[derive(Debug, Clone)]
pub struct AntiBlockSettings {
    pub enabled: bool,
    pub rate_limit_enabled: bool,
    /// Least pause between two requests to one host (ms).
    pub min_interval_ms: u64,
    /// Greatest pause between two requests to one host (ms).
    pub max_interval_ms: u64,
    /// Retries after the first attempt.
    pub max_retries: u32,
    pub ua_rotation_enabled: bool,
    pub mirror_rotation_enabled: bool,
    pub proxy_pool_enabled: bool,
    pub proxies: Vec<String>,
}

pub fn default_anti_block_min_interval() -> (r: u64)
    ensures
        r == 800,
{
    800
}

pub fn default_anti_block_max_interval() -> (r: u64)
    ensures
        r == 2000,
{
    2000
}

pub fn default_anti_block_max_retries() -> (r: u32)
    ensures
        r == 2,
{
    2
}

impl Default for AntiBlockSettings {
    fn default() -> (r: Self)
        ensures
            r.enabled && r.rate_limit_enabled && r.ua_rotation_enabled && r.mirror_rotation_enabled,
            !r.proxy_pool_enabled,
            r.min_interval_ms == 800,
            r.max_interval_ms == 2000,
            r.max_retries == 2,
            r.proxies@.len() == 0,
    {
        AntiBlockSettings {
            enabled: true,
            rate_limit_enabled: true,
            min_interval_ms: 800,
            max_interval_ms: 2000,
            max_retries: 2,
            ua_rotation_enabled: true,
            mirror_rotation_enabled: true,
            proxy_pool_enabled: false,
            proxies: Vec::new(),
        }
    }
}

/// Trimmed, non-blank entries in order, each kept at its first occurrence.
pub open spec fn dedup_trimmed(ps: Seq<Seq<char>>) -> Seq<Seq<char>>
    decreases ps.len(),
{
    if ps.len() == 0 {
        Seq::empty()
    } else {
        let r = dedup_trimmed(ps.drop_last());
        let t = trim(ps.last());
        if t.len() == 0 || r.contains(t) {
            r
        } else {
            r.push(t)
        }
    }
}

pub open spec fn min_u64(a: u64, b: u64) -> u64 {
    if a <= b { a } else { b }
}

/// The interval bounds are ordered (swapped when reversed), the upper bound is
/// capped at one minute and the lower one at the upper; retries are capped at
/// five; the proxy list is trimmed, blank entries dropped and duplicates
/// removed keeping the first. The switches are left as they were.
pub open spec fn anti_block_normalized(o: AntiBlockSettings, n: AntiBlockSettings) -> bool {
    let lo = if o.min_interval_ms > o.max_interval_ms { o.max_interval_ms } else { o.min_interval_ms };
    let hi = if o.min_interval_ms > o.max_interval_ms { o.min_interval_ms } else { o.max_interval_ms };
    &&& n.max_interval_ms == min_u64(hi, 60_000)
    &&& n.min_interval_ms == min_u64(lo, n.max_interval_ms)
    &&& n.max_retries == (if o.max_retries <= 5 { o.max_retries } else { 5 })
    &&& string_views(n.proxies@) == dedup_trimmed(string_views(o.proxies@))
    &&& n.enabled == o.enabled
    &&& n.rate_limit_enabled == o.rate_limit_enabled
    &&& n.ua_rotation_enabled == o.ua_rotation_enabled
    &&& n.mirror_rotation_enabled == o.mirror_rotation_enabled
    &&& n.proxy_pool_enabled == o.proxy_pool_enabled
}

pub fn normalize_anti_block_settings(anti_block: &mut AntiBlockSettings)
    ensures
        anti_block_normalized(*old(anti_block), *final(anti_block)),
{
    let ghost o = *anti_block;
    if anti_block.min_interval_ms > anti_block.max_interval_ms {
        let t = anti_block.min_interval_ms;
        anti_block.min_interval_ms = anti_block.max_interval_ms;
        anti_block.max_interval_ms = t;
    }
    if anti_block.max_interval_ms > 60_000 {
        anti_block.max_interval_ms = 60_000;
    }
    if anti_block.min_interval_ms > anti_block.max_interval_ms {
        anti_block.min_interval_ms = anti_block.max_interval_ms;
    }
    if anti_block.max_retries > 5 {
        anti_block.max_retries = 5;
    }
    let mut out: Vec<String> = Vec::new();
    let mut i: usize = 0;
    while i < anti_block.proxies.len()
        invariant
            i <= anti_block.proxies.len(),
            anti_block.proxies == o.proxies,
            string_views(out@) == dedup_trimmed(string_views(o.proxies@).take(i as int)),
        decreases anti_block.proxies.len() - i,
    {
        let t = trim_str(anti_block.proxies[i].as_str());
        assert(string_views(o.proxies@).take(i + 1).drop_last() =~= string_views(o.proxies@).take(
            i as int,
        ));
        if t.len() > 0 && !list_contains(&out, &t) {
            let s = string_of(&t);
            out.push(s);
            assert(string_views(out@) =~= dedup_trimmed(string_views(o.proxies@).take(i + 1)));
        }
        i += 1;
    }
    assert(string_views(o.proxies@).take(o.proxies@.len() as int) =~= string_views(o.proxies@));
    anti_block.proxies = out;
}

// ------------------------------------------------------------------
// Scraping
// ------------------------------------------------------------------

/// Scrape settings.
#[derive(Debug, Clone)]
pub struct ScrapeSettings {
    pub concurrent: u32,
    pub scraper_priority: Vec<String>,
    pub max_webview_windows: u32,
    pub link_finder_concurrency: u32,
    pub link_finder_source_timeout_secs: u32,
    pub webview_enabled: bool,
    pub webview_fallback_enabled: bool,
    pub dev_show_webview: bool,
    pub default_site: String,
    pub sites: Vec<ResourceSite>,
    /// Last site chosen in the link finder.
    pub link_finder_site: String,
    pub anti_block: AntiBlockSettings,
    /// Treat every work as uncensored when routing sources.
    pub uncensored_mode: bool,
}

/// Fetch behaviour derived from the scrape settings.
#[derive(Debug, Clone, Copy)]
pub struct ScrapeFetchSettings {
    pub webview_enabled: bool,
    pub webview_fallback_enabled: bool,
    pub dev_show_webview: bool,
    pub max_webview_windows: usize,
}

/// Id of the first enabled site of `sites`, if any.
pub open spec fn first_enabled_id(sites: Seq<SiteView>) -> Option<Seq<char>> {
    match first_match(sites, |s: SiteView| s.enabled) {
        Some(k) => Some(sites[k].id),
        None => None,
    }
}

/// The default site: the first enabled built-in site, else `javbus`.
pub open spec fn spec_default_site() -> Seq<char> {
    match first_enabled_id(default_site_table()) {
        Some(id) => id,
        None => "javbus"@,
    }
}

fn first_enabled(sites: &Vec<ResourceSite>) -> (r: Option<usize>)
    ensures
        r matches Some(k) ==> k < sites.len() && first_match(
            site_views(sites@),
            |s: SiteView| s.enabled,
        ) == Some(k as int),
        r is None ==> first_match(site_views(sites@), |s: SiteView| s.enabled) is None,
{
    let ghost sv = site_views(sites@);
    let ghost f = |s: SiteView| s.enabled;
    let mut i: usize = 0;
    while i < sites.len()
        invariant
            i <= sites.len(),
            sv == site_views(sites@),
            f == (|s: SiteView| s.enabled),
            first_match(sv.take(i as int), f) is None,
        decreases sites.len() - i,
    {
        if sites[i].enabled {
            proof {
                lemma_first_match_at(sv, f, i as int);
            }
            return Some(i);
        }
        proof {
            lemma_first_match_step(sv, f, i as int);
        }
        i += 1;
    }
    assert(sv.take(sites.len() as int) =~= sv);
    None
}

pub fn default_scrape_default_site() -> (r: String)
    ensures
        r@ == spec_default_site(),
{
    let sites = default_sites();
    match first_enabled(&sites) {
        Some(k) => sites[k].id.clone(),
        None => owned("javbus"),
    }
}

pub fn default_link_finder_site() -> (r: String)
    ensures
        r@ == "missav"@,
{
    owned("missav")
}

pub fn default_scrape_sites() -> (r: Vec<ResourceSite>)
    ensures
        site_views(r@) == default_site_table(),
{
    default_sites()
}

pub fn default_scrape_max_webview_windows() -> (r: u32)
    ensures
        r == 3,
{
    3
}

pub fn default_link_finder_concurrency() -> (r: u32)
    ensures
        r == 3,
{
    3
}

pub fn default_link_finder_source_timeout() -> (r: u32)
    ensures
        r == 60,
{
    60
}

pub open spec fn same_site_id(id: Seq<char>) -> spec_fn(SiteView) -> bool {
    |s: SiteView| s.id == id
}

/// A built-in site with the state of the first saved site of the same id.
pub open spec fn merged_site(d: SiteView, saved: Seq<SiteView>) -> SiteView {
    match first_match(saved, same_site_id(d.id)) {
        Some(k) => SiteView {
            id: d.id,
            name: d.name,
            url: d.url,
            enabled: saved[k].enabled,
            avg_score: saved[k].avg_score,
            scrape_count: saved[k].scrape_count,
        },
        None => d,
    }
}

/// The built-in sites, carrying over the saved state; unknown saved sites are dropped.
pub open spec fn merge_sites(saved: Seq<SiteView>) -> Seq<SiteView> {
    default_site_table().map_values(|d: SiteView| merged_site(d, saved))
}

/// Merging keeps the built-in sites, in their order, with their ids, names
/// and addresses. Each takes the enabled flag, average score and scrape count
/// of the first saved site with its id; one that no saved site names stays as
/// built in.
pub proof fn lemma_merge_sites_carries_state(saved: Seq<SiteView>)
    ensures
        merge_sites(saved).len() == default_site_table().len(),
        forall|i: int|
            0 <= i < default_site_table().len() ==> (#[trigger] merge_sites(saved)[i]).id
                == default_site_table()[i].id && merge_sites(saved)[i].name
                == default_site_table()[i].name && merge_sites(saved)[i].url
                == default_site_table()[i].url,
        forall|i: int, k: int|
            0 <= i < default_site_table().len() && 0 <= k < saved.len() && (#[trigger] saved[k]).id
                == default_site_table()[i].id && (forall|j: int|
                0 <= j < k ==> (#[trigger] saved[j]).id != saved[k].id) ==> (#[trigger] merge_sites(saved)[i]).enabled
                == saved[k].enabled && merge_sites(saved)[i].avg_score == saved[k].avg_score
                && merge_sites(saved)[i].scrape_count == saved[k].scrape_count,
        forall|i: int|
            0 <= i < default_site_table().len() && (forall|k: int|
                0 <= k < saved.len() ==> (#[trigger] saved[k]).id != default_site_table()[i].id)
                ==> #[trigger] merge_sites(saved)[i] == default_site_table()[i],
{
    assert forall|i: int, k: int|
        0 <= i < default_site_table().len() && 0 <= k < saved.len() && (#[trigger] saved[k]).id
            == default_site_table()[i].id && (forall|j: int|
            0 <= j < k ==> (#[trigger] saved[j]).id != saved[k].id) implies (#[trigger] merge_sites(saved)[i]).enabled
        == saved[k].enabled && merge_sites(saved)[i].avg_score == saved[k].avg_score
        && merge_sites(saved)[i].scrape_count == saved[k].scrape_count by {
        let f = same_site_id(default_site_table()[i].id);
        assert forall|j: int| 0 <= j < k implies !f(#[trigger] saved[j]) by {
            assert(saved[j].id != saved[k].id);
        }
        lemma_first_saved(saved, f, k);
    }
    assert forall|i: int|
        0 <= i < default_site_table().len() && (forall|k: int|
            0 <= k < saved.len() ==> (#[trigger] saved[k]).id != default_site_table()[i].id)
            implies #[trigger] merge_sites(saved)[i] == default_site_table()[i] by {
        let f = same_site_id(default_site_table()[i].id);
        lemma_first_match(saved, f);
        if first_match(saved, f) is Some {
            let k = first_match(saved, f)->0;
            assert(saved[k].id != default_site_table()[i].id);
        }
    }
}

fn find_site(saved: &Vec<ResourceSite>, id: &String) -> (r: Option<usize>)
    ensures
        r matches Some(k) ==> first_match(site_views(saved@), same_site_id(id@)) == Some(k as int)
            && k < saved.len(),
        r is None ==> first_match(site_views(saved@), same_site_id(id@)) is None,
{
    let ghost sv = site_views(saved@);
    let ghost f = same_site_id(id@);
    let idv = chars_of(id.as_str());
    let mut i: usize = 0;
    while i < saved.len()
        invariant
            i <= saved.len(),
            sv == site_views(saved@),
            f == same_site_id(id@),
            idv@ == id@,
            first_match(sv.take(i as int), f) is None,
        decreases saved.len() - i,
    {
        let sid = chars_of(saved[i].id.as_str());
        if same(&sid, &idv) {
            proof {
                lemma_first_match_at(sv, f, i as int);
            }
            return Some(i);
        }
        proof {
            lemma_first_match_step(sv, f, i as int);
        }
        i += 1;
    }
    assert(sv.take(saved.len() as int) =~= sv);
    None
}

/// The built-in sites with the enabled state, average score and scrape count
/// of the saved ones carried over.
pub fn merge_scrape_sites(saved: &Vec<ResourceSite>) -> (r: Vec<ResourceSite>)
    ensures
        site_views(r@) == merge_sites(site_views(saved@)),
{
    let defaults = default_sites();
    let mut r: Vec<ResourceSite> = Vec::new();
    let mut i: usize = 0;
    while i < defaults.len()
        invariant
            i <= defaults.len(),
            site_views(defaults@) == default_site_table(),
            site_views(r@) == merge_sites(site_views(saved@)).take(i as int),
        decreases defaults.len() - i,
    {
        let d = &defaults[i];
        let site = match find_site(saved, &d.id) {
            Some(k) => ResourceSite {
                id: d.id.clone(),
                name: d.name.clone(),
                url: d.url.clone(),
                enabled: saved[k].enabled,
                avg_score: saved[k].avg_score,
                scrape_count: saved[k].scrape_count,
            },
            None => copy_site(d),
        };
        assert(site_views(defaults@)[i as int] == defaults@[i as int]@);
        assert(site@ == merge_sites(site_views(saved@))[i as int]);
        let ghost before = r@;
        r.push(site);
        assert(site_views(r@) =~= site_views(before).push(site@));
        i += 1;
        assert(site_views(r@) =~= merge_sites(site_views(saved@)).take(i as int));
    }
    r
}

pub open spec fn clamp_u32(v: u32, lo: u32, hi: u32) -> u32 {
    if v < lo { lo } else if v > hi { hi } else { v }
}

pub open spec fn site_ids(sites: Seq<SiteView>) -> Seq<Seq<char>> {
    sites.map_values(|s: SiteView| s.id)
}

/// The entries of `prio` that are ids in `ids`, in order.
pub open spec fn keep_known(prio: Seq<Seq<char>>, ids: Seq<Seq<char>>) -> Seq<Seq<char>>
    decreases prio.len(),
{
    if prio.len() == 0 {
        Seq::empty()
    } else {
        let r = keep_known(prio.drop_last(), ids);
        if ids.contains(prio.last()) {
            r.push(prio.last())
        } else {
            r
        }
    }
}

/// Whether `id` names an enabled site of `sites`.
pub open spec fn is_enabled_site(sites: Seq<SiteView>, id: Seq<char>) -> bool {
    exists|i: int| 0 <= i < sites.len() && sites[i].id == id && sites[i].enabled
}

/// The default site after normalisation: kept when it is the automatic choice
/// or an enabled site; otherwise the first enabled site, else the built-in default.
pub open spec fn normalized_default_site(old_default: Seq<char>, sites: Seq<SiteView>) -> Seq<char> {
    if old_default == AUTO_HIGHEST_SCORE_SITE@ || is_enabled_site(sites, old_default) {
        old_default
    } else {
        match first_enabled_id(sites) {
            Some(id) => id,
            None => spec_default_site(),
        }
    }
}

fn site_ids_of(sites: &Vec<ResourceSite>) -> (r: Vec<String>)
    ensures
        string_views(r@) == site_ids(site_views(sites@)),
{
    let mut r: Vec<String> = Vec::new();
    let mut i: usize = 0;
    while i < sites.len()
        invariant
            i <= sites.len(),
            string_views(r@) == site_ids(site_views(sites@)).take(i as int),
        decreases sites.len() - i,
    {
        let ghost before = r@;
        let id = sites[i].id.clone();
        r.push(id);
        assert(string_views(r@) =~= string_views(before).push(id@));
        assert(site_views(sites@)[i as int] == sites@[i as int]@);
        i += 1;
        assert(string_views(r@) =~= site_ids(site_views(sites@)).take(i as int));
    }
    r
}

fn enabled_site_with_id(sites: &Vec<ResourceSite>, id: &String) -> (r: bool)
    ensures
        r == is_enabled_site(site_views(sites@), id@),
{
    let idv = chars_of(id.as_str());
    let mut i: usize = 0;
    while i < sites.len()
        invariant
            i <= sites.len(),
            idv@ == id@,
            forall|k: int| 0 <= k < i ==> !(site_views(sites@)[k].id == id@ && site_views(sites@)[k].enabled),
        decreases sites.len() - i,
    {
        let sid = chars_of(sites[i].id.as_str());
        if sites[i].enabled && same(&sid, &idv) {
            assert(site_views(sites@)[i as int].id == id@);
            return true;
        }
        i += 1;
    }
    false
}

/// What normalising the scrape settings `o` gives (`n`): the concurrency
/// limits clamped, the site list rebuilt from the built-in one with the saved
/// state, the anti-blocking settings normalised, the priority list restricted
/// to known sites (or filled with every site when empty), the default site
/// repaired, and the switches left as they were.
pub open spec fn scrape_normalized(o: ScrapeSettings, n: ScrapeSettings) -> bool {
    let merged = merge_sites(site_views(o.sites@));
    &&& n.concurrent == clamp_u32(o.concurrent, 1, 10)
    &&& n.max_webview_windows == clamp_u32(o.max_webview_windows, 1, 8)
    &&& n.link_finder_concurrency == clamp_u32(o.link_finder_concurrency, 1, 3)
    &&& n.link_finder_source_timeout_secs == clamp_u32(o.link_finder_source_timeout_secs, 30, 600)
    &&& site_views(n.sites@) == merged
    &&& anti_block_normalized(o.anti_block, n.anti_block)
    &&& string_views(n.scraper_priority@) == (if o.scraper_priority@.len() == 0 {
        site_ids(merged)
    } else {
        keep_known(string_views(o.scraper_priority@), site_ids(merged))
    })
    &&& n.default_site@ == normalized_default_site(o.default_site@, merged)
    &&& n.webview_enabled == o.webview_enabled
    &&& n.webview_fallback_enabled == o.webview_fallback_enabled
    &&& n.dev_show_webview == o.dev_show_webview
    &&& n.link_finder_site == o.link_finder_site
    &&& n.uncensored_mode == o.uncensored_mode
}

/// Clamps the concurrency limits, rebuilds the site list from the built-in one
/// with the saved state, normalises the anti-blocking settings, restricts the
/// priority list to known sites (or fills it with every site when empty) and
/// repairs the default site.
#[verifier::rlimit(40)]
pub fn normalize_scrape_settings(scrape: &mut ScrapeSettings)
    ensures
        scrape_normalized(*old(scrape), *final(scrape)),
{
    let ghost o = *scrape;
    if scrape.concurrent < 1 {
        scrape.concurrent = 1;
    } else if scrape.concurrent > 10 {
        scrape.concurrent = 10;
    }
    if scrape.max_webview_windows < 1 {
        scrape.max_webview_windows = 1;
    } else if scrape.max_webview_windows > 8 {
        scrape.max_webview_windows = 8;
    }
    if scrape.link_finder_concurrency < 1 {
        scrape.link_finder_concurrency = 1;
    } else if scrape.link_finder_concurrency > 3 {
        scrape.link_finder_concurrency = 3;
    }
    if scrape.link_finder_source_timeout_secs < 30 {
        scrape.link_finder_source_timeout_secs = 30;
    } else if scrape.link_finder_source_timeout_secs > 600 {
        scrape.link_finder_source_timeout_secs = 600;
    }
    let merged = merge_scrape_sites(&scrape.sites);
    scrape.sites = merged;
    normalize_anti_block_settings(&mut scrape.anti_block);

    let ids = site_ids_of(&scrape.sites);
    if scrape.scraper_priority.len() == 0 {
        scrape.scraper_priority = ids;
    } else {
        let mut kept: Vec<String> = Vec::new();
        let mut i: usize = 0;
        while i < scrape.scraper_priority.len()
            invariant
                i <= scrape.scraper_priority.len(),
                scrape.scraper_priority == o.scraper_priority,
                string_views(ids@) == site_ids(merge_sites(site_views(o.sites@))),
                string_views(kept@) == keep_known(
                    string_views(o.scraper_priority@).take(i as int),
                    string_views(ids@),
                ),
            decreases scrape.scraper_priority.len() - i,
        {
            let p = chars_of(scrape.scraper_priority[i].as_str());
            assert(string_views(o.scraper_priority@).take(i + 1).drop_last() =~= string_views(
                o.scraper_priority@,
            ).take(i as int));
            if list_contains(&ids, &p) {
                kept.push(scrape.scraper_priority[i].clone());
                assert(string_views(kept@) =~= keep_known(
                    string_views(o.scraper_priority@).take(i + 1),
                    string_views(ids@),
                ));
            }
            i += 1;
        }
        assert(string_views(o.scraper_priority@).take(o.scraper_priority@.len() as int)
            =~= string_views(o.scraper_priority@));
        scrape.scraper_priority = kept;
    }

    let auto = chars_of(AUTO_HIGHEST_SCORE_SITE);
    let cur = chars_of(scrape.default_site.as_str());
    let keep = same(&cur, &auto) || enabled_site_with_id(&scrape.sites, &scrape.default_site);
    if !keep {
        match first_enabled(&scrape.sites) {
            Some(k) => {
                scrape.default_site = scrape.sites[k].id.clone();
            },
            None => {
                scrape.default_site = default_scrape_default_site();
            },
        }
    }
}

/// The enabled sites, in order.
pub fn enabled_scrape_sites(scrape: &ScrapeSettings) -> (r: Vec<ResourceSite>)
    ensures
        site_views(r@) == site_views(scrape.sites@).filter(|s: SiteView| s.enabled),
{
    let ghost sv = site_views(scrape.sites@);
    let ghost f = |s: SiteView| s.enabled;
    let mut r: Vec<ResourceSite> = Vec::new();
    let mut i: usize = 0;
    while i < scrape.sites.len()
        invariant
            i <= scrape.sites.len(),
            sv == site_views(scrape.sites@),
            f == (|s: SiteView| s.enabled),
            site_views(r@) == sv.take(i as int).filter(f),
        decreases scrape.sites.len() - i,
    {
        reveal_with_fuel(Seq::<_>::filter, 1);
        assert(sv.take(i + 1).drop_last() =~= sv.take(i as int));
        assert(sv[i as int] == scrape.sites@[i as int]@);
        if scrape.sites[i].enabled {
            r.push(copy_site(&scrape.sites[i]));
        }
        i += 1;
        assert(site_views(r@) =~= sv.take(i as int).filter(f));
    }
    assert(sv.take(scrape.sites.len() as int) =~= sv);
    r
}

/// Fetch behaviour of the scrape settings. The developer window is shown only
/// in a debug build (`debug_build`, which the caller passes).
pub fn resolve_scrape_fetch_settings(scrape: &ScrapeSettings, debug_build: bool) -> (r: ScrapeFetchSettings)
    ensures
        r.webview_enabled == scrape.webview_enabled,
        r.webview_fallback_enabled == scrape.webview_fallback_enabled,
        r.dev_show_webview == (debug_build && scrape.dev_show_webview),
        r.max_webview_windows == (if scrape.max_webview_windows >= 1 {
            scrape.max_webview_windows
        } else {
            1
        }),
{
    let windows: u32 = if scrape.max_webview_windows >= 1 { scrape.max_webview_windows } else { 1 };
    ScrapeFetchSettings {
        webview_enabled: scrape.webview_enabled,
        webview_fallback_enabled: scrape.webview_fallback_enabled,
        dev_show_webview: debug_build && scrape.dev_show_webview,
        max_webview_windows: windows as usize,
    }
}

impl Default for ScrapeSettings {
    fn default() -> (r: Self)
        ensures
            r.concurrent == 5,
            string_views(r.scraper_priority@) == seq!["javbus"@, "javmenu"@, "javxx"@],
            r.max_webview_windows == 3,
            r.link_finder_concurrency == 3,
            r.link_finder_source_timeout_secs == 60,
            !r.webview_enabled && !r.webview_fallback_enabled && !r.dev_show_webview,
            r.default_site@ == spec_default_site(),
            site_views(r.sites@) == default_site_table(),
            r.link_finder_site@ == "missav"@,
            r.anti_block.min_interval_ms == 800 && r.anti_block.max_interval_ms == 2000,
            r.anti_block.max_retries == 2 && r.anti_block.proxies@.len() == 0,
            !r.uncensored_mode,
    {
        let mut prio: Vec<String> = Vec::new();
        prio.push(owned("javbus"));
        prio.push(owned("javmenu"));
        prio.push(owned("javxx"));
        assert(string_views(prio@) =~= seq!["javbus"@, "javmenu"@, "javxx"@]);
        ScrapeSettings {
            concurrent: 5,
            scraper_priority: prio,
            max_webview_windows: default_scrape_max_webview_windows(),
            link_finder_concurrency: default_link_finder_concurrency(),
            link_finder_source_timeout_secs: default_link_finder_source_timeout(),
            webview_enabled: false,
            webview_fallback_enabled: false,
            dev_show_webview: false,
            default_site: default_scrape_default_site(),
            sites: default_scrape_sites(),
            link_finder_site: default_link_finder_site(),
            anti_block: AntiBlockSettings::default(),
            uncensored_mode: false,
        }
    }
}

// ------------------------------------------------------------------
// AI, ad filter
// ------------------------------------------------------------------

#[derive(Debug, Clone)]
pub struct AIProvider {
    pub id: String,
    pub provider: String,
    pub name: String,
    /// Stored obfuscated (not encrypted).
    pub api_key: String,
    pub endpoint: Option<String>,
    pub model: String,
    pub priority: u32,
    pub active: bool,
    pub rate_limit: u32,
}

#[derive(Debug, Clone)]
pub struct AISettings {
    pub providers: Vec<AIProvider>,
    pub cache_enabled: bool,
    pub cache_duration: u32,
    pub translate_scrape_result: bool,
}

impl Default for AISettings {
    fn default() -> (r: Self)
        ensures
            r.providers@.len() == 0,
            r.cache_enabled,
            r.cache_duration == 3600,
            !r.translate_scrape_result,
    {
        AISettings {
            providers: Vec::new(),
            cache_enabled: true,
            cache_duration: 3600,
            translate_scrape_result: false,
        }
    }
}

/// Advertisement filter keywords.
#[derive(Debug, Clone)]
pub struct AdFilterSettings {
    pub keywords: Vec<String>,
    pub exclude_keywords: Vec<String>,
}

/// The keyword always present in the filter.
pub open spec fn default_ad_keyword() -> Seq<char> {
    "全網網黃國"@
}

/// Does `list` hold an entry equal to `t` up to ASCII case?
pub open spec fn has_ci(list: Seq<Seq<char>>, t: Seq<char>) -> bool {
    exists|i: int| 0 <= i < list.len() && eq_ignore_case(list[i], t)
}

/// Trimmed, non-blank keywords in order, each kept unless an earlier kept one
/// equals it up to ASCII case.
pub open spec fn normalized_keywords(ks: Seq<Seq<char>>) -> Seq<Seq<char>>
    decreases ks.len(),
{
    if ks.len() == 0 {
        Seq::empty()
    } else {
        let r = normalized_keywords(ks.drop_last());
        let t = trim(ks.last());
        if t.len() == 0 || has_ci(r, t) {
            r
        } else {
            r.push(t)
        }
    }
}

fn has_ci_exec(v: &Vec<String>, t: &Vec<char>) -> (r: bool)
    ensures
        r == has_ci(string_views(v@), t@),
{
    let mut i: usize = 0;
    while i < v.len()
        invariant
            i <= v.len(),
            forall|k: int| 0 <= k < i ==> !eq_ignore_case(string_views(v@)[k], t@),
        decreases v.len() - i,
    {
        let c = chars_of(v[i].as_str());
        if eq_ignore_case_chars(&c, t) {
            assert(eq_ignore_case(string_views(v@)[i as int], t@));
            return true;
        }
        i += 1;
    }
    false
}

pub fn normalize_keyword_list(keywords: &mut Vec<String>)
    ensures
        string_views(final(keywords)@) == normalized_keywords(string_views(old(keywords)@)),
{
    let ghost o = keywords@;
    let mut out: Vec<String> = Vec::new();
    let mut i: usize = 0;
    while i < keywords.len()
        invariant
            i <= keywords.len(),
            keywords@ == o,
            string_views(out@) == normalized_keywords(string_views(o).take(i as int)),
        decreases keywords.len() - i,
    {
        let t = trim_str(keywords[i].as_str());
        assert(string_views(o).take(i + 1).drop_last() =~= string_views(o).take(i as int));
        if t.len() > 0 && !has_ci_exec(&out, &t) {
            out.push(string_of(&t));
            assert(string_views(out@) =~= normalized_keywords(string_views(o).take(i + 1)));
        }
        i += 1;
    }
    assert(string_views(o).take(o.len() as int) =~= string_views(o));
    *keywords = out;
}

/// The filter keywords normalised, with the built-in keyword appended unless
/// already present verbatim.
pub open spec fn ad_filter_keywords(ks: Seq<Seq<char>>) -> Seq<Seq<char>> {
    let k = normalized_keywords(ks);
    if k.contains(default_ad_keyword()) {
        k
    } else {
        k.push(default_ad_keyword())
    }
}

/// Both keyword lists normalised; the built-in keyword appended unless
/// already present verbatim.
pub fn normalize_ad_filter_settings(ad_filter: &mut AdFilterSettings)
    ensures
        string_views(final(ad_filter).exclude_keywords@) == normalized_keywords(
            string_views(old(ad_filter).exclude_keywords@),
        ),
        string_views(final(ad_filter).keywords@) == ad_filter_keywords(string_views(old(ad_filter).keywords@)),
{
    normalize_keyword_list(&mut ad_filter.keywords);
    normalize_keyword_list(&mut ad_filter.exclude_keywords);
    let kw = chars_of("全網網黃國");
    if !list_contains(&ad_filter.keywords, &kw) {
        let ghost before = string_views(ad_filter.keywords@);
        ad_filter.keywords.push(owned("全網網黃國"));
        assert(string_views(ad_filter.keywords@) =~= before.push(default_ad_keyword()));
    }
}

impl Default for AdFilterSettings {
    fn default() -> (r: Self)
        ensures
            string_views(r.keywords@) == seq![default_ad_keyword()],
            r.exclude_keywords@.len() == 0,
    {
        let mut k: Vec<String> = Vec::new();
        k.push(owned("全網網黃國"));
        assert(string_views(k@) =~= seq![default_ad_keyword()]);
        AdFilterSettings { keywords: k, exclude_keywords: Vec::new() }
    }
}

// ------------------------------------------------------------------
// Windows and the whole settings file
// ------------------------------------------------------------------

/// Player window geometry; each coordinate is the bit pattern of the `f64`
/// the settings file holds.
#[derive(Debug, Clone)]
pub struct VideoPlayerSettings {
    pub width: Option<u64>,
    pub height: Option<u64>,
    pub x: Option<u64>,
    pub y: Option<u64>,
    pub always_on_top: bool,
}

/// Main window geometry; each coordinate is the bit pattern of an `f64`.
#[derive(Debug, Clone)]
pub struct MainWindowSettings {
    pub width: Option<u64>,
    pub height: Option<u64>,
    pub x: Option<u64>,
    pub y: Option<u64>,
}

impl Default for VideoPlayerSettings {
    fn default() -> (r: Self)
        ensures
            r.width is None && r.height is None && r.x is None && r.y is None,
            !r.always_on_top,
    {
        VideoPlayerSettings { width: None, height: None, x: None, y: None, always_on_top: false }
    }
}

impl Default for MainWindowSettings {
    fn default() -> (r: Self)
        ensures
            r.width is None && r.height is None && r.x is None && r.y is None,
    {
        MainWindowSettings { width: None, height: None, x: None, y: None }
    }
}

/// Every setting of the application.
#[derive(Debug, Clone)]
pub struct AppSettings {
    pub theme: ThemeSettings,
    pub general: GeneralSettings,
    pub download: DownloadSettings,
    pub scrape: ScrapeSettings,
    pub ai: AISettings,
    pub ad_filter: AdFilterSettings,
    pub video_player: VideoPlayerSettings,
    pub main_window: MainWindowSettings,
    pub metatube: MetaTubeSettings,
    pub update: UpdateSettings,
    pub metadata: MetadataSettings,
}

impl Default for AppSettings {
    fn default() -> (r: Self)
        ensures
            r.theme.mode@ == "system"@ && r.theme.language@ == "zh-CN"@,
            r.theme.proxy.proxy_type@ == "system"@ && r.theme.proxy.port == 7890,
            r.general.scan_paths@.len() == 0 && r.general.video_extensions@.len() == 0,
            r.general.view_mode@ == "card"@ && r.general.play_method@ == "software"@,
            r.general.cover_click_to_play && r.general.cover_type@ == "landscape"@,
            r.general.actor_card_size == 160,
            r.download.concurrent == 3 && r.scrape.concurrent == 5,
            r.metadata.storage_mode@ == "follow_video"@ && r.metadata.root_dir@.len() == 0,
            r.metadata.auto_download_subtitle,
            r.update.channel@ == "stable"@,
            r.metatube.enabled,
    {
        AppSettings {
            theme: ThemeSettings {
                mode: owned("system"),
                language: owned("zh-CN"),
                proxy: ProxySettings::default(),
            },
            general: GeneralSettings {
                scan_paths: Vec::new(),
                view_mode: owned("card"),
                play_method: owned("software"),
                cover_click_to_play: true,
                cover_type: owned("landscape"),
                actor_card_size: 160,
                video_extensions: Vec::new(),
            },
            download: DownloadSettings::default(),
            scrape: ScrapeSettings::default(),
            ai: AISettings::default(),
            ad_filter: AdFilterSettings::default(),
            video_player: VideoPlayerSettings::default(),
            main_window: MainWindowSettings::default(),
            metatube: MetaTubeSettings::default(),
            update: UpdateSettings::default(),
            metadata: MetadataSettings::default(),
        }
    }
}


// ------------------------------------------------------------------
// Laws of the normalisation
// ------------------------------------------------------------------

/// After normalisation the interval between requests is ordered and at most
/// one minute, and at most five retries are made.
pub proof fn lemma_anti_block_bounds(o: AntiBlockSettings, n: AntiBlockSettings)
    requires
        anti_block_normalized(o, n),
    ensures
        n.min_interval_ms <= n.max_interval_ms <= 60_000,
        n.max_retries <= 5,
{
}

/// The normalised proxy list holds trimmed, non-blank entries, none twice.
pub proof fn lemma_dedup_trimmed_distinct(ps: Seq<Seq<char>>)
    ensures
        forall|i: int| 0 <= i < dedup_trimmed(ps).len() ==> (#[trigger] dedup_trimmed(ps)[i]).len() > 0
            && trim(dedup_trimmed(ps)[i]) == dedup_trimmed(ps)[i],
        forall|i: int, j: int| 0 <= i < j < dedup_trimmed(ps).len() ==> #[trigger] dedup_trimmed(ps)[i]
            != #[trigger] dedup_trimmed(ps)[j],
    decreases ps.len(),
{
    if ps.len() > 0 {
        lemma_dedup_trimmed_distinct(ps.drop_last());
        let r = dedup_trimmed(ps.drop_last());
        let t = trim(ps.last());
        lemma_trim_idempotent(ps.last());
        if !(t.len() == 0 || r.contains(t)) {
            let n = r.push(t);
            assert forall|i: int| 0 <= i < n.len() implies (#[trigger] n[i]).len() > 0 && trim(n[i]) == n[i] by {
                if i < r.len() {
                    assert(n[i] == r[i]);
                }
            }
            assert forall|i: int, j: int| 0 <= i < j < n.len() implies #[trigger] n[i] != #[trigger] n[j] by {
                if j < r.len() {
                    assert(n[i] == r[i] && n[j] == r[j]);
                } else {
                    assert(n[j] == t);
                    assert(n[i] == r[i]);
                    if r[i] == t {
                        assert(r.contains(t));
                    }
                }
            }
        }
    }
}

/// The normalised keyword list holds trimmed, non-blank keywords, no two equal
/// up to ASCII case.
pub proof fn lemma_normalized_keywords_distinct(ks: Seq<Seq<char>>)
    ensures
        forall|i: int| 0 <= i < normalized_keywords(ks).len() ==> (#[trigger] normalized_keywords(ks)[i]).len()
            > 0 && trim(normalized_keywords(ks)[i]) == normalized_keywords(ks)[i],
        forall|i: int, j: int| 0 <= i < j < normalized_keywords(ks).len() ==> !eq_ignore_case(
            #[trigger] normalized_keywords(ks)[i],
            #[trigger] normalized_keywords(ks)[j],
        ),
    decreases ks.len(),
{
    if ks.len() > 0 {
        lemma_normalized_keywords_distinct(ks.drop_last());
        let r = normalized_keywords(ks.drop_last());
        let t = trim(ks.last());
        lemma_trim_idempotent(ks.last());
        if !(t.len() == 0 || has_ci(r, t)) {
            let n = r.push(t);
            assert forall|i: int| 0 <= i < n.len() implies (#[trigger] n[i]).len() > 0 && trim(n[i]) == n[i] by {
                if i < r.len() {
                    assert(n[i] == r[i]);
                }
            }
            assert forall|i: int, j: int| 0 <= i < j < n.len() implies !eq_ignore_case(#[trigger] n[i], #[trigger] n[j]) by {
                if j < r.len() {
                    assert(n[i] == r[i] && n[j] == r[j]);
                } else {
                    assert(n[j] == t);
                    assert(n[i] == r[i]);
                }
            }
        }
    }
}

/// The merged site list is the built-in list, site for site.
pub proof fn lemma_merge_sites_follow_defaults(saved: Seq<SiteView>)
    ensures
        site_ids(merge_sites(saved)) == site_ids(default_site_table()),
        forall|k: int| 0 <= k < merge_sites(saved).len() ==> (#[trigger] merge_sites(saved)[k]).name
            == default_site_table()[k].name && merge_sites(saved)[k].url == default_site_table()[k].url,
{
    assert(site_ids(merge_sites(saved)) =~= site_ids(default_site_table()));
}

/// A kept priority entry always names one of the given sites.
pub proof fn lemma_keep_known_subset(prio: Seq<Seq<char>>, ids: Seq<Seq<char>>)
    ensures
        forall|i: int| 0 <= i < keep_known(prio, ids).len() ==> ids.contains(#[trigger] keep_known(prio, ids)[i]),
    decreases prio.len(),
{
    if prio.len() > 0 {
        lemma_keep_known_subset(prio.drop_last(), ids);
        let r = keep_known(prio.drop_last(), ids);
        if ids.contains(prio.last()) {
            let n = r.push(prio.last());
            assert forall|i: int| 0 <= i < n.len() implies ids.contains(#[trigger] n[i]) by {
                if i < r.len() {
                    assert(n[i] == r[i]);
                }
            }
        }
    }
}

/// After normalisation the default site is the automatic choice, an enabled
/// site, or, when no site is enabled, the built-in default.
pub proof fn lemma_default_site_is_usable(old_default: Seq<char>, sites: Seq<SiteView>)
    ensures
        ({
            let d = normalized_default_site(old_default, sites);
            ||| d == AUTO_HIGHEST_SCORE_SITE@
            ||| is_enabled_site(sites, d)
            ||| (d == spec_default_site() && forall|i: int| 0 <= i < sites.len() ==> !(#[trigger] sites[i]).enabled)
        }),
{
    lemma_first_match(sites, |s: SiteView| s.enabled);
    if !(old_default == AUTO_HIGHEST_SCORE_SITE@ || is_enabled_site(sites, old_default)) {
        match first_match(sites, |s: SiteView| s.enabled) {
            Some(k) => {
                assert(sites[k].enabled);
                assert(is_enabled_site(sites, sites[k].id));
            },
            None => {},
        }
    }
}


spec fn id_signature(s: Seq<char>) -> (int, char, char, char) {
    (s.len() as int, s[0], s[3], s[4])
}

/// No two built-in sites share an id.
#[verifier::rlimit(100)]
/// No two built-in sites share an id.
pub proof fn lemma_default_site_ids_distinct()
    ensures
        forall|i: int, j: int| 0 <= i < j < default_site_table().len() ==> (#[trigger] default_site_table()[i]).id
            != (#[trigger] default_site_table()[j]).id,
{
    reveal_strlit("javbus");
    reveal_strlit("javmenu");
    reveal_strlit("javsb");
    reveal_strlit("javxx");
    reveal_strlit("javplace");
    reveal_strlit("projectjav");
    reveal_strlit("3xplanet");
    reveal_strlit("freejavbt");
    reveal_strlit("javlibrary");
    reveal_strlit("javguru");
    reveal_strlit("javtiful");
    reveal_strlit("123av");
    reveal_strlit("myjav");
    reveal_strlit("javgg");
    reveal_strlit("javmost");
    reveal_strlit("sextb");
    reveal_strlit("avsox");
    let t = default_site_table();
    assert(t[0].id == "javbus"@);
    assert(id_signature(t[0].id) == (6int, 'j', 'b', 'u'));
    assert(t[1].id == "javmenu"@);
    assert(id_signature(t[1].id) == (7int, 'j', 'm', 'e'));
    assert(t[2].id == "javsb"@);
    assert(id_signature(t[2].id) == (5int, 'j', 's', 'b'));
    assert(t[3].id == "javxx"@);
    assert(id_signature(t[3].id) == (5int, 'j', 'x', 'x'));
    assert(t[4].id == "javplace"@);
    assert(id_signature(t[4].id) == (8int, 'j', 'p', 'l'));
    assert(t[5].id == "projectjav"@);
    assert(id_signature(t[5].id) == (10int, 'p', 'j', 'e'));
    assert(t[6].id == "3xplanet"@);
    assert(id_signature(t[6].id) == (8int, '3', 'l', 'a'));
    assert(t[7].id == "freejavbt"@);
    assert(id_signature(t[7].id) == (9int, 'f', 'e', 'j'));
    assert(t[8].id == "javlibrary"@);
    assert(id_signature(t[8].id) == (10int, 'j', 'l', 'i'));
    assert(t[9].id == "javguru"@);
    assert(id_signature(t[9].id) == (7int, 'j', 'g', 'u'));
    assert(t[10].id == "javtiful"@);
    assert(id_signature(t[10].id) == (8int, 'j', 't', 'i'));
    assert(t[11].id == "123av"@);
    assert(id_signature(t[11].id) == (5int, '1', 'a', 'v'));
    assert(t[12].id == "myjav"@);
    assert(id_signature(t[12].id) == (5int, 'm', 'a', 'v'));
    assert(t[13].id == "javgg"@);
    assert(id_signature(t[13].id) == (5int, 'j', 'g', 'g'));
    assert(t[14].id == "javmost"@);
    assert(id_signature(t[14].id) == (7int, 'j', 'm', 'o'));
    assert(t[15].id == "sextb"@);
    assert(id_signature(t[15].id) == (5int, 's', 't', 'b'));
    assert(t[16].id == "avsox"@);
    assert(id_signature(t[16].id) == (5int, 'a', 'o', 'x'));
    assert forall|i: int, j: int| 0 <= i < j < t.len() implies (#[trigger] t[i]).id != (#[trigger] t[j]).id by {
        assert(i == 0 || i == 1 || i == 2 || i == 3 || i == 4 || i == 5 || i == 6 || i == 7 || i == 8 || i == 9 || i == 10 || i == 11 || i == 12 || i == 13 || i == 14 || i == 15 || i == 16);
        assert(j == 0 || j == 1 || j == 2 || j == 3 || j == 4 || j == 5 || j == 6 || j == 7 || j == 8 || j == 9 || j == 10 || j == 11 || j == 12 || j == 13 || j == 14 || j == 15 || j == 16);
        assert(id_signature(t[i].id) != id_signature(t[j].id));
    }
}

/// Merging the merged list again changes nothing.
pub proof fn lemma_merge_sites_idempotent(saved: Seq<SiteView>)
    ensures
        merge_sites(merge_sites(saved)) == merge_sites(saved),
{
    let t = default_site_table();
    let m = merge_sites(saved);
    lemma_default_site_ids_distinct();
    assert forall|k: int| 0 <= k < t.len() implies #[trigger] merged_site(t[k], m) == m[k] by {
        let f = same_site_id(t[k].id);
        assert(m[k] == merged_site(t[k], saved));
        assert(f(m[k]));
        lemma_first_match(m.take(k), f);
        if first_match(m.take(k), f) is Some {
            let j = first_match(m.take(k), f)->0;
            assert(m.take(k)[j] == m[j]);
            assert(m[j].id == t[j].id);
            assert(false);
        }
        lemma_first_match_at(m, f, k);
    }
    assert(merge_sites(m) =~= m);
}

/// Keeping the known entries of a list of known entries keeps them all.
proof fn lemma_keep_known_all_known(p: Seq<Seq<char>>, ids: Seq<Seq<char>>)
    requires
        forall|i: int| 0 <= i < p.len() ==> ids.contains(#[trigger] p[i]),
    ensures
        keep_known(p, ids) == p,
    decreases p.len(),
{
    if p.len() > 0 {
        let init = p.drop_last();
        assert forall|i: int| 0 <= i < init.len() implies ids.contains(#[trigger] init[i]) by {
            assert(init[i] == p[i]);
        }
        lemma_keep_known_all_known(init, ids);
        assert(ids.contains(p[p.len() - 1]));
        assert(init.push(p.last()) =~= p);
    }
}

/// Removing blank entries and duplicates from a list that has none changes nothing.
proof fn lemma_dedup_trimmed_fixed(ps: Seq<Seq<char>>)
    requires
        forall|i: int| 0 <= i < ps.len() ==> (#[trigger] ps[i]).len() > 0 && trim(ps[i]) == ps[i],
        forall|i: int, j: int| 0 <= i < j < ps.len() ==> #[trigger] ps[i] != #[trigger] ps[j],
    ensures
        dedup_trimmed(ps) == ps,
    decreases ps.len(),
{
    if ps.len() > 0 {
        let init = ps.drop_last();
        assert forall|i: int| 0 <= i < init.len() implies (#[trigger] init[i]).len() > 0 && trim(init[i]) == init[i] by {
            assert(init[i] == ps[i]);
        }
        assert forall|i: int, j: int| 0 <= i < j < init.len() implies #[trigger] init[i] != #[trigger] init[j] by {
            assert(init[i] == ps[i] && init[j] == ps[j]);
        }
        lemma_dedup_trimmed_fixed(init);
        let last = ps.last();
        assert(trim(last) == last && last.len() > 0) by {
            assert(last == ps[ps.len() - 1]);
        }
        if init.contains(last) {
            let j = choose|j: int| 0 <= j < init.len() && init[j] == last;
            assert(ps[j] == ps[ps.len() - 1]);
            assert(false);
        }
        assert(init.push(last) =~= ps);
    }
}

/// Normalising anti-blocking settings twice gives what normalising once gives.
pub proof fn lemma_anti_block_idempotent(o: AntiBlockSettings, n: AntiBlockSettings, n2: AntiBlockSettings)
    requires
        anti_block_normalized(o, n),
        anti_block_normalized(n, n2),
    ensures
        n2.min_interval_ms == n.min_interval_ms,
        n2.max_interval_ms == n.max_interval_ms,
        n2.max_retries == n.max_retries,
        string_views(n2.proxies@) == string_views(n.proxies@),
{
    lemma_dedup_trimmed_distinct(string_views(o.proxies@));
    lemma_dedup_trimmed_fixed(string_views(n.proxies@));
}

/// The default site once repaired stays as it is.
pub proof fn lemma_default_site_settles(d: Seq<char>, sites: Seq<SiteView>)
    ensures
        normalized_default_site(normalized_default_site(d, sites), sites) == normalized_default_site(d, sites),
{
    lemma_default_site_is_usable(d, sites);
    lemma_first_match(sites, |s: SiteView| s.enabled);
}

/// Normalising scrape settings that are already normalised changes nothing,
/// unless the saved priority list named no known site: the first pass empties
/// it, and the second fills it with every site.
pub proof fn lemma_normalize_scrape_idempotent(o: ScrapeSettings, n: ScrapeSettings, n2: ScrapeSettings)
    requires
        scrape_normalized(o, n),
        scrape_normalized(n, n2),
        o.scraper_priority@.len() == 0 || keep_known(
            string_views(o.scraper_priority@),
            site_ids(merge_sites(site_views(o.sites@))),
        ).len() > 0,
    ensures
        n2.concurrent == n.concurrent,
        n2.max_webview_windows == n.max_webview_windows,
        n2.link_finder_concurrency == n.link_finder_concurrency,
        n2.link_finder_source_timeout_secs == n.link_finder_source_timeout_secs,
        site_views(n2.sites@) == site_views(n.sites@),
        n2.anti_block.min_interval_ms == n.anti_block.min_interval_ms,
        n2.anti_block.max_interval_ms == n.anti_block.max_interval_ms,
        n2.anti_block.max_retries == n.anti_block.max_retries,
        string_views(n2.anti_block.proxies@) == string_views(n.anti_block.proxies@),
        string_views(n2.scraper_priority@) == string_views(n.scraper_priority@),
        n2.default_site@ == n.default_site@,
{
    let merged = merge_sites(site_views(o.sites@));
    lemma_merge_sites_idempotent(site_views(o.sites@));
    assert(merge_sites(site_views(n.sites@)) == merged);
    lemma_anti_block_idempotent(o.anti_block, n.anti_block, n2.anti_block);
    let ids = site_ids(merged);
    assert(ids.len() == 17);
    if o.scraper_priority@.len() == 0 {
        assert(string_views(n.scraper_priority@) == ids);
        assert(n.scraper_priority@.len() == 17);
        assert forall|i: int| 0 <= i < ids.len() implies ids.contains(#[trigger] ids[i]) by {}
        lemma_keep_known_all_known(ids, ids);
    } else {
        let kept = keep_known(string_views(o.scraper_priority@), ids);
        lemma_keep_known_subset(string_views(o.scraper_priority@), ids);
        assert(n.scraper_priority@.len() == string_views(n.scraper_priority@).len());
        lemma_keep_known_all_known(kept, ids);
    }
    lemma_default_site_settles(o.default_site@, merged);
}


/// After normalisation the ad filter always holds its default keyword.
pub proof fn lemma_ad_filter_keeps_default(keywords: Seq<Seq<char>>)
    ensures
        ({
            let k = normalized_keywords(keywords);
            let kept = if k.contains(default_ad_keyword()) {
                k
            } else {
                k.push(default_ad_keyword())
            };
            kept.contains(default_ad_keyword())
        }),
{
    let k = normalized_keywords(keywords);
    if !k.contains(default_ad_keyword()) {
        assert(k.push(default_ad_keyword())[k.len() as int] == default_ad_keyword());
    }
}

/// Trimmed, non-blank keywords no two of which are equal up to ASCII case are
/// already normalised.
proof fn lemma_normalized_keywords_fixed(ks: Seq<Seq<char>>)
    requires
        forall|i: int| 0 <= i < ks.len() ==> (#[trigger] ks[i]).len() > 0 && trim(ks[i]) == ks[i],
        forall|i: int, j: int| 0 <= i < j < ks.len() ==> !eq_ignore_case(#[trigger] ks[i], #[trigger] ks[j]),
    ensures
        normalized_keywords(ks) == ks,
    decreases ks.len(),
{
    if ks.len() > 0 {
        let init = ks.drop_last();
        assert forall|i: int| 0 <= i < init.len() implies (#[trigger] init[i]).len() > 0 && trim(init[i]) == init[i] by {
            assert(init[i] == ks[i]);
        }
        assert forall|i: int, j: int| 0 <= i < j < init.len() implies !eq_ignore_case(#[trigger] init[i], #[trigger] init[j]) by {
            assert(init[i] == ks[i] && init[j] == ks[j]);
        }
        lemma_normalized_keywords_fixed(init);
        let last = ks.last();
        assert(trim(last) == last && last.len() > 0) by {
            assert(last == ks[ks.len() - 1]);
        }
        if has_ci(init, last) {
            let j = choose|j: int| 0 <= j < init.len() && eq_ignore_case(init[j], last);
            assert(init[j] == ks[j]);
            assert(!eq_ignore_case(ks[j], ks[ks.len() - 1]));
            assert(false);
        }
        assert(init.push(last) =~= ks);
    }
}

/// The built-in keyword has no white space at its ends and no ASCII letter,
/// so only itself equals it up to ASCII case.
proof fn lemma_default_ad_keyword_shape()
    ensures
        default_ad_keyword().len() > 0,
        trim(default_ad_keyword()) == default_ad_keyword(),
        forall|x: Seq<char>| #[trigger] eq_ignore_case(x, default_ad_keyword()) ==> x == default_ad_keyword(),
{
    reveal_strlit("全網網黃國");
    let d = default_ad_keyword();
    assert(d.len() == 5);
    assert(!is_ws(d[0]));
    assert(trim_start(d) == d);
    assert(!is_ws(d.last()));
    assert(trim_end(d) == d);
    assert forall|x: Seq<char>| #[trigger] eq_ignore_case(x, d) implies x == d by {
        assert(lower_seq(x) == lower_seq(d));
        assert(lower_seq(x).len() == x.len());
        assert forall|i: int| 0 <= i < x.len() implies x[i] == d[i] by {
            assert(lower_seq(d)[i] == lower(d[i]));
            assert(lower(d[i]) == d[i]);
            assert(lower_seq(x)[i] == lower(x[i]));
            if is_upper_ascii(x[i]) {
                assert((d[i] as u32) > 0x7f);
                assert(lower(x[i]) == d[i]);
                assert(false);
            }
        }
        assert(x =~= d);
    }
}

/// Normalising the ad filter twice gives what normalising once gives, for
/// both keyword lists.
pub proof fn lemma_ad_filter_idempotent(keywords: Seq<Seq<char>>, exclude: Seq<Seq<char>>)
    ensures
        normalized_keywords(normalized_keywords(exclude)) == normalized_keywords(exclude),
        ad_filter_keywords(ad_filter_keywords(keywords)) == ad_filter_keywords(keywords),
{
    lemma_normalized_keywords_distinct(exclude);
    lemma_normalized_keywords_fixed(normalized_keywords(exclude));
    lemma_normalized_keywords_distinct(keywords);
    lemma_default_ad_keyword_shape();
    let n = normalized_keywords(keywords);
    let d = default_ad_keyword();
    if n.contains(d) {
        lemma_normalized_keywords_fixed(n);
    } else {
        let m = n.push(d);
        assert forall|i: int| 0 <= i < m.len() implies (#[trigger] m[i]).len() > 0 && trim(m[i]) == m[i] by {
            if i < n.len() {
                assert(m[i] == n[i]);
            }
        }
        assert forall|i: int, j: int| 0 <= i < j < m.len() implies !eq_ignore_case(#[trigger] m[i], #[trigger] m[j]) by {
            assert(m[i] == n[i]);
            if j < n.len() {
                assert(m[j] == n[j]);
            } else {
                assert(m[j] == d);
                if eq_ignore_case(n[i], d) {
                    assert(n[i] == d);
                    assert(n.contains(d));
                }
            }
        }
        lemma_normalized_keywords_fixed(m);
        assert(m[n.len() as int] == d);
        assert(m.contains(d));
    }
}

} // verus!
