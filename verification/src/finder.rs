//! Video-link finder: the built-in download sites, their page URLs and
//! failure-detection rules.

use vstd::prelude::*;
use crate::settings::{copy_source, source_views, DownloadSource, DownloadSourceView};
use crate::text::{
    chars_of, concat, replace_all, replace_str, str_eq, string_of, to_lowercase_chars,
    to_uppercase_chars, unicode_lower, unicode_upper,
};

verus! {

/// A video link captured by the finder.
#[derive(Debug, Clone)]
pub struct VideoLink {
    /// Link URL.
    pub url: String,
    /// Kind: m3u8 / mp4 / ts / txt.
    pub link_type: String,
    /// Whether the link is an HLS playlist.
    pub is_hls: bool,
    /// Resolution label (720p, 1080p, ...).
    pub resolution: Option<String>,
}

/// A video site offered to the user.
#[derive(Debug, Clone)]
pub struct VideoSite {
    pub id: String,
    pub name: String,
    /// URL template; `{code}` is replaced by the designation.
    pub url_template: String,
}

/// A built-in download site. `{code}` / `{CODE}` in the template stand for the
/// lower- / upper-cased designation; `fail_selector` (with `fail_text`, when
/// not empty) recognises the site's "not found" page.
pub struct DownloadSiteDef {
    pub id: &'static str,
    pub name: &'static str,
    pub url_template: &'static str,
    pub fail_selector: &'static str,
    pub fail_text: &'static str,
}

/// Mathematical value of a [`DownloadSiteDef`].
pub struct SiteDefView {
    pub id: Seq<char>,
    pub name: Seq<char>,
    pub url_template: Seq<char>,
    pub fail_selector: Seq<char>,
    pub fail_text: Seq<char>,
}

impl View for DownloadSiteDef {
    type V = SiteDefView;

    open spec fn view(&self) -> SiteDefView {
        SiteDefView {
            id: self.id@,
            name: self.name@,
            url_template: self.url_template@,
            fail_selector: self.fail_selector@,
            fail_text: self.fail_text@,
        }
    }
}

pub open spec fn def_row(id: &str, name: &str, tpl: &str, sel: &str, txt: &str) -> SiteDefView {
    SiteDefView { id: id@, name: name@, url_template: tpl@, fail_selector: sel@, fail_text: txt@ }
}

/// The built-in download sites, in order.
pub open spec fn download_site_table() -> Seq<SiteDefView> {
    seq![
        def_row("missav", "MissAV", "https://missav.ws/{code}", "", ""),
        def_row("thisav", "ThisAV", "https://thisav2.com/cn/{code}", "h1", "找不到页面"),
        def_row("njav", "NJAV", "https://www.njav.com/zh/xvideos/{code}", ".message", "404 Not Found"),
        def_row("jable", "Jable.tv", "https://jable.tv/videos/{code}/", "", ""),
        def_row("jptt", "JPTT.tv", "https://jptt.tv/video/{code}", "h1", "404 Not Found"),
        def_row("javsb", "Jav.sb", "https://jav.sb/jav/{code}-1-1.html", ".badge", "404"),
        def_row("123av", "123AV", "https://123av.com/cn/v/{code}", ".errpage__code", "404"),
        def_row("myjav", "MyJav.tv", "https://cn.myjav.tv/video/{code}", "h1", "404"),
        def_row("javgg", "JavGG", "https://javgg.net/jav/{code}/", ".no-result", "404"),
        def_row("javct", "JavCT", "https://javct.net/v/{code}", ".page-404__title", "404"),
        def_row("javmost", "JavMost", "https://www.javmost.ws/{CODE}/", "h1", "404"),
        def_row("javeng", "JavEng", "https://javeng.tv/jav-eng-sub/{code}/", ".error404", ""),
        def_row("javfull", "JavFull", "https://javfull.net/{code}/", "#notfound", ""),
    ]
}

pub open spec fn def_views(v: Seq<DownloadSiteDef>) -> Seq<SiteDefView> {
    v.map_values(|d: DownloadSiteDef| d@)
}

/// The built-in download sites (`DEFAULT_DOWNLOAD_SITES`).
pub fn default_download_sites() -> (r: Vec<DownloadSiteDef>)
    ensures
        def_views(r@) == download_site_table(),
{
    let v: Vec<DownloadSiteDef> = vec![
        DownloadSiteDef { id: "missav", name: "MissAV", url_template: "https://missav.ws/{code}", fail_selector: "", fail_text: "" },
        DownloadSiteDef { id: "thisav", name: "ThisAV", url_template: "https://thisav2.com/cn/{code}", fail_selector: "h1", fail_text: "找不到页面" },
        DownloadSiteDef { id: "njav", name: "NJAV", url_template: "https://www.njav.com/zh/xvideos/{code}", fail_selector: ".message", fail_text: "404 Not Found" },
        DownloadSiteDef { id: "jable", name: "Jable.tv", url_template: "https://jable.tv/videos/{code}/", fail_selector: "", fail_text: "" },
        DownloadSiteDef { id: "jptt", name: "JPTT.tv", url_template: "https://jptt.tv/video/{code}", fail_selector: "h1", fail_text: "404 Not Found" },
        DownloadSiteDef { id: "javsb", name: "Jav.sb", url_template: "https://jav.sb/jav/{code}-1-1.html", fail_selector: ".badge", fail_text: "404" },
        DownloadSiteDef { id: "123av", name: "123AV", url_template: "https://123av.com/cn/v/{code}", fail_selector: ".errpage__code", fail_text: "404" },
        DownloadSiteDef { id: "myjav", name: "MyJav.tv", url_template: "https://cn.myjav.tv/video/{code}", fail_selector: "h1", fail_text: "404" },
        DownloadSiteDef { id: "javgg", name: "JavGG", url_template: "https://javgg.net/jav/{code}/", fail_selector: ".no-result", fail_text: "404" },
        DownloadSiteDef { id: "javct", name: "JavCT", url_template: "https://javct.net/v/{code}", fail_selector: ".page-404__title", fail_text: "404" },
        DownloadSiteDef { id: "javmost", name: "JavMost", url_template: "https://www.javmost.ws/{CODE}/", fail_selector: "h1", fail_text: "404" },
        DownloadSiteDef { id: "javeng", name: "JavEng", url_template: "https://javeng.tv/jav-eng-sub/{code}/", fail_selector: ".error404", fail_text: "" },
        DownloadSiteDef { id: "javfull", name: "JavFull", url_template: "https://javfull.net/{code}/", fail_selector: "#notfound", fail_text: "" },
    ];
    assert(def_views(v@) =~= download_site_table());
    v
}

/// Index of the first site of `table` with id `id`.
pub open spec fn first_def_with_id(table: Seq<SiteDefView>, id: Seq<char>) -> Option<int>
    decreases table.len(),
{
    if table.len() == 0 {
        None
    } else {
        match first_def_with_id(table.drop_last(), id) {
            Some(k) => Some(k),
            None => if table.last().id == id {
                Some(table.len() - 1)
            } else {
                None
            },
        }
    }
}

/// The definition found for an id is one of the table, with that id.
pub proof fn lemma_first_def_with_id(table: Seq<SiteDefView>, id: Seq<char>)
    ensures
        first_def_with_id(table, id) matches Some(k) ==> 0 <= k < table.len() && table[k].id == id,
    decreases table.len(),
{
    if table.len() > 0 {
        lemma_first_def_with_id(table.drop_last(), id);
    }
}

fn find_def(defs: &Vec<DownloadSiteDef>, id: &str) -> (r: Option<usize>)
    ensures
        r matches Some(k) ==> first_def_with_id(def_views(defs@), id@) == Some(k as int) && k
            < defs.len(),
        r is None ==> first_def_with_id(def_views(defs@), id@) is None,
{
    let mut i: usize = 0;
    while i < defs.len()
        invariant
            i <= defs.len(),
            first_def_with_id(def_views(defs@).take(i as int), id@) is None,
        decreases defs.len() - i,
    {
        assert(def_views(defs@).take(i + 1).drop_last() =~= def_views(defs@).take(i as int));
        if str_eq(defs[i].id, id) {
            proof {
                lemma_prefix_first(def_views(defs@), id@, i as int);
            }
            return Some(i);
        }
        i += 1;
    }
    assert(def_views(defs@).take(defs.len() as int) =~= def_views(defs@));
    None
}

proof fn lemma_prefix_first(table: Seq<SiteDefView>, id: Seq<char>, i: int)
    requires
        0 <= i < table.len(),
        first_def_with_id(table.take(i), id) is None,
        table[i].id == id,
    ensures
        first_def_with_id(table, id) == Some(i),
    decreases table.len() - i,
{
    if i + 1 < table.len() {
        assert(table.take(i + 1).drop_last() =~= table.take(i));
        lemma_prefix_first(table.take(i + 1), id, i);
        lemma_extend_found(table, id, i + 1);
    } else {
        assert(table.drop_last() =~= table.take(i));
    }
}

proof fn lemma_extend_found(table: Seq<SiteDefView>, id: Seq<char>, n: int)
    requires
        0 < n <= table.len(),
        first_def_with_id(table.take(n), id) is Some,
    ensures
        first_def_with_id(table, id) == first_def_with_id(table.take(n), id),
    decreases table.len() - n,
{
    if n < table.len() {
        assert(table.take(n + 1).drop_last() =~= table.take(n));
        lemma_extend_found(table, id, n + 1);
    } else {
        assert(table.take(n) =~= table);
    }
}

/// The page URL of a site for a designation: `{CODE}` replaced by the
/// upper-cased and then `{code}` by the lower-cased designation.
pub open spec fn site_url(tpl: Seq<char>, upper: Seq<char>, lower: Seq<char>) -> Seq<char> {
    replace_all(replace_all(tpl, "{CODE}"@, upper), "{code}"@, lower)
}

/// The page URL of the download site `site_id` for the designation `code`;
/// an error naming the site when no built-in site has that id.
pub fn build_site_url(site_id: &str, code: &str) -> (r: Result<String, String>)
    ensures
        first_def_with_id(download_site_table(), site_id@) matches Some(k) ==> r is Ok && r->Ok_0@
            == site_url(
            download_site_table()[k].url_template,
            unicode_upper(code@),
            unicode_lower(code@),
        ),
        first_def_with_id(download_site_table(), site_id@) is None ==> r is Err && r->Err_0@
            == "未知的视频网站: "@ + site_id@,
{
    let defs = default_download_sites();
    match find_def(&defs, site_id) {
        None => {
            let head = chars_of("未知的视频网站: ");
            let id = chars_of(site_id);
            let msg = concat(&head, &id);
            Err(string_of(&msg))
        },
        Some(k) => {
            let cv = chars_of(code);
            let upper = to_uppercase_chars(&cv);
            let lower = to_lowercase_chars(&cv);
            let tpl = chars_of(defs[k].url_template);
            let step = replace_str(&tpl, "{CODE}", &upper);
            let done = replace_str(&step, "{code}", &lower);
            Ok(string_of(&done))
        },
    }
}

/// The failure-detection rule (selector, text) of a download site; a pair of
/// empty strings for an unknown site.
pub fn site_fail_rule(site_id: &str) -> (r: (&'static str, &'static str))
    ensures
        first_def_with_id(download_site_table(), site_id@) matches Some(k) ==> r.0@
            == download_site_table()[k].fail_selector && r.1@ == download_site_table()[k].fail_text,
        first_def_with_id(download_site_table(), site_id@) is None ==> r.0@ == ""@ && r.1@ == ""@,
{
    let defs = default_download_sites();
    match find_def(&defs, site_id) {
        Some(k) => (defs[k].fail_selector, defs[k].fail_text),
        None => ("", ""),
    }
}

/// Label of the finder window of a site: `video_finder_` followed by the id.
pub fn video_finder_label(site_id: &str) -> (r: String)
    ensures
        r@ == "video_finder_"@ + site_id@,
{
    let p = chars_of("video_finder_");
    let s = chars_of(site_id);
    let all = concat(&p, &s);
    string_of(&all)
}


// ------------------------------------------------------------------
// Sites offered to the user
// ------------------------------------------------------------------

/// `x` inserted before the first site with fewer successful downloads
/// (stable: most successful first, ties in their order).
pub open spec fn insert_by_count(x: DownloadSourceView, s: Seq<DownloadSourceView>) -> Seq<DownloadSourceView>
    decreases s.len(),
{
    if s.len() == 0 {
        seq![x]
    } else if x.success_count > s[0].success_count {
        seq![x] + s
    } else {
        seq![s[0]] + insert_by_count(x, s.drop_first())
    }
}

/// The sources stably sorted by successful downloads, most first.
pub open spec fn sort_by_count(s: Seq<DownloadSourceView>) -> Seq<DownloadSourceView>
    decreases s.len(),
{
    if s.len() == 0 {
        Seq::empty()
    } else {
        insert_by_count(s.last(), sort_by_count(s.drop_last()))
    }
}

/// The enabled sources, most successful first, as sites to offer.
pub open spec fn offered_sites(sources: Seq<DownloadSourceView>) -> Seq<(Seq<char>, Seq<char>, Seq<char>)> {
    sort_by_count(sources.filter(|s: DownloadSourceView| s.enabled)).map_values(
        |s: DownloadSourceView| (s.id, s.name, s.url_template),
    )
}

pub open spec fn video_site_views(v: Seq<VideoSite>) -> Seq<(Seq<char>, Seq<char>, Seq<char>)> {
    v.map_values(|s: VideoSite| (s.id@, s.name@, s.url_template@))
}

proof fn lemma_insert_by_count_at(x: DownloadSourceView, s: Seq<DownloadSourceView>, p: int)
    requires
        0 <= p <= s.len(),
        forall|i: int| 0 <= i < p ==> !(x.success_count > #[trigger] s[i].success_count),
        p < s.len() ==> x.success_count > s[p].success_count,
    ensures
        insert_by_count(x, s) == s.insert(p, x),
    decreases s.len(),
{
    if s.len() == 0 {
        assert(s.insert(p, x) =~= seq![x]);
    } else if p == 0 {
        assert(s.insert(0, x) =~= seq![x] + s);
    } else {
        let t = s.drop_first();
        assert forall|i: int| 0 <= i < p - 1 implies !(x.success_count > #[trigger] t[i].success_count) by {
            assert(t[i] == s[i + 1]);
        }
        if p - 1 < t.len() {
            assert(t[p - 1] == s[p]);
        }
        lemma_insert_by_count_at(x, t, p - 1);
        assert(seq![s[0]] + t.insert(p - 1, x) =~= s.insert(p, x));
    }
}

/// The enabled download sources as sites to offer, most successful first
/// (ties keep their order).
pub fn offered_video_sites(sources: &Vec<DownloadSource>) -> (r: Vec<VideoSite>)
    ensures
        video_site_views(r@) == offered_sites(source_views(sources@)),
{
    let ghost sv = source_views(sources@);
    let ghost f = |s: DownloadSourceView| s.enabled;
    let mut sorted: Vec<DownloadSource> = Vec::new();
    let mut i: usize = 0;
    while i < sources.len()
        invariant
            i <= sources.len(),
            sv == source_views(sources@),
            f == (|s: DownloadSourceView| s.enabled),
            source_views(sorted@) == sort_by_count(sv.take(i as int).filter(f)),
        decreases sources.len() - i,
    {
        reveal_with_fuel(Seq::<_>::filter, 1);
        assert(sv.take(i + 1).drop_last() =~= sv.take(i as int));
        assert(sv[i as int] == sources@[i as int]@);
        if sources[i].enabled {
            let ghost x = sources@[i as int]@;
            let count = sources[i].success_count;
            let mut k: usize = 0;
            while k < sorted.len() && !(count > sorted[k].success_count)
                invariant
                    k <= sorted.len(),
                    forall|j: int| 0 <= j < k ==> !(x.success_count > #[trigger] source_views(sorted@)[j].success_count),
                    x.success_count == count,
                decreases sorted.len() - k,
            {
                assert(source_views(sorted@)[k as int].success_count == sorted@[k as int].success_count);
                k += 1;
            }
            if k < sorted.len() {
                assert(source_views(sorted@)[k as int].success_count == sorted@[k as int].success_count);
            }
            proof {
                lemma_insert_by_count_at(x, source_views(sorted@), k as int);
            }
            let ghost before = sorted@;
            sorted.insert(k, copy_source(&sources[i]));
            assert(source_views(sorted@) =~= source_views(before).insert(k as int, x));
            assert(sv.take(i + 1).filter(f) == sv.take(i as int).filter(f).push(x));
            let ghost t = sv.take(i as int).filter(f);
            assert(t.push(x).drop_last() =~= t);
            assert(t.push(x).last() == x);
            assert(sort_by_count(t.push(x)) == insert_by_count(x, sort_by_count(t)));
        } else {
            assert(sv.take(i + 1).filter(f) == sv.take(i as int).filter(f));
        }
        i += 1;
    }
    assert(sv.take(sources.len() as int) =~= sv);
    let ghost sortedv = source_views(sorted@);
    let mut out: Vec<VideoSite> = Vec::new();
    let mut j: usize = 0;
    while j < sorted.len()
        invariant
            j <= sorted.len(),
            sortedv == source_views(sorted@),
            video_site_views(out@) == sortedv.take(j as int).map_values(
                |s: DownloadSourceView| (s.id, s.name, s.url_template),
            ),
        decreases sorted.len() - j,
    {
        let ghost before = video_site_views(out@);
        out.push(VideoSite {
            id: sorted[j].id.clone(),
            name: sorted[j].name.clone(),
            url_template: sorted[j].url_template.clone(),
        });
        assert(video_site_views(out@) =~= before.push(
            (sorted@[j as int].id@, sorted@[j as int].name@, sorted@[j as int].url_template@),
        ));
        assert(sortedv.take(j + 1).map_values(|s: DownloadSourceView| (s.id, s.name, s.url_template))
            =~= sortedv.take(j as int).map_values(|s: DownloadSourceView| (s.id, s.name, s.url_template)).push(
            (sorted@[j as int].id@, sorted@[j as int].name@, sorted@[j as int].url_template@),
        ));
        j += 1;
    }
    assert(sortedv.take(sorted.len() as int) =~= sortedv);
    out
}

// ------------------------------------------------------------------
// The interception script of the video finder
// ------------------------------------------------------------------

/// The script injected into a video site's page: it reports the media
/// links the page requests, and the site's failure marker when it shows.
pub const INTERCEPT_JS: &'static str = r#"
(function() {
    var __SITE__ = '__VIDEO_FINDER_SITE__';
    // 每源失败检测规则（由后端 site_fail_rule 注入为 JS 字符串字面量；空串=无规则）
    var __FAIL_SEL__ = __VIDEO_FINDER_FAIL_SEL__;
    var __FAIL_TEXT__ = __VIDEO_FINDER_FAIL_TEXT__;
    if (window.__CF_CHALLENGE_ACTIVE__) return;
    if (window.__VIDEO_FINDER_INJECTED__) return;
    window.__VIDEO_FINDER_INJECTED__ = true;
    window.__VIDEO_FINDER_URLS__ = new Set();

    // 视频链接匹配正则（放宽后缀限制，包含txt）
    var VIDEO_RE = /\.(m3u8|mp4|ts|txt)(?:[#\?].*)?$/i;
    // 兼容像 /qc/v.m3u8 等路径
    var URL_SCAN_RE = /https?:\/\/[^\s"'`<>\\\)\]\}]+\.(?:m3u8|mp4|ts|txt)(?:[#\?][^\s"'`<>\\\)\]\}]*)?/gi;

    function looksLikeHlsText(text) {
        if (!text || typeof text !== 'string') return false;
        var trimmed = text.replace(/^\uFEFF/, '').trim();
        return trimmed.indexOf('#EXTM3U') === 0;
    }

    function reportUrl(url, force) {
        if (!url || typeof url !== 'string') return;
        // 清理 URL 末尾的特殊字符
        url = url.replace(/["'`\\;,\s]+$/, '');
        if (!force && !VIDEO_RE.test(url)) return;
        if (window.__VIDEO_FINDER_URLS__.has(url)) return;
        window.__VIDEO_FINDER_URLS__.add(url);
        try {
            if (window.__TAURI__ && window.__TAURI__.event) {
                window.__TAURI__.event.emit('video-finder-link', { site: __SITE__, url: url });
            }
        } catch(e) {
            console.log('[VideoFinder] emit 失败:', e);
        }
    }

    // 扫描文本中的视频链接
    function scanText(text) {
        if (!text || typeof text !== 'string') return;
        var match;
        URL_SCAN_RE.lastIndex = 0;
        while ((match = URL_SCAN_RE.exec(text)) !== null) {
            reportUrl(match[0]);
        }
    }

    // ========== 拦截网络请求 ==========

    // 拦截 XMLHttpRequest
    var origOpen = XMLHttpRequest.prototype.open;
    XMLHttpRequest.prototype.open = function(method, url) {
        if (typeof url === 'string') {
            this.__videoFinderRequestUrl = url;
            reportUrl(url, false);
        }
        return origOpen.apply(this, arguments);
    };

    // 拦截 XMLHttpRequest 响应（可能包含 master playlist 指向子 m3u8）
    var origSend = XMLHttpRequest.prototype.send;
    XMLHttpRequest.prototype.send = function() {
        var xhr = this;
        xhr.addEventListener('load', function() {
            try {
                var body = xhr.responseText || '';
                var responseUrl = xhr.responseURL || xhr.__videoFinderRequestUrl || '';
                if (looksLikeHlsText(body)) reportUrl(responseUrl, true);
                if (body) scanText(body);
            } catch(e) {}
        });
        return origSend.apply(this, arguments);
    };

    // 拦截 fetch
    var origFetch = window.fetch;
    window.fetch = function(input, init) {
        var url = (typeof input === 'string') ? input : (input && input.url ? input.url : '');
        if (url) reportUrl(url, false);
        // 也检查 fetch 响应内容
        var p = origFetch.apply(this, arguments);
        p.then(function(resp) {
            // clone 响应以便读取内容
            try {
                var responseUrl = resp.url || url;
                var ct = resp.headers.get('content-type') || '';
                if (ct.indexOf('mpegurl') !== -1 || ct.indexOf('text') !== -1 || ct.indexOf('json') !== -1 || ct.indexOf('octet-stream') !== -1 || !ct) {
                    resp.clone().text().then(function(body) {
                        if (looksLikeHlsText(body)) reportUrl(responseUrl, true);
                        scanText(body);
                    }).catch(function(){});
                }
            } catch(e) {}
        }).catch(function(){});
        return p;
    };

    // ========== 拦截 DOM 属性 ==========

    // 拦截 Element.setAttribute
    var origSetAttribute = Element.prototype.setAttribute;
    Element.prototype.setAttribute = function(name, value) {
        if ((name === 'src' || name === 'href' || name === 'data-src') && typeof value === 'string') {
            reportUrl(value);
        }
        return origSetAttribute.apply(this, arguments);
    };

    // 拦截 HTMLMediaElement.src setter（video/audio 元素）
    try {
        var srcDesc = Object.getOwnPropertyDescriptor(HTMLMediaElement.prototype, 'src');
        if (srcDesc && srcDesc.set) {
            var origSrcSet = srcDesc.set;
            Object.defineProperty(HTMLMediaElement.prototype, 'src', {
                set: function(val) {
                    if (typeof val === 'string') reportUrl(val);
                    return origSrcSet.call(this, val);
                },
                get: srcDesc.get,
                configurable: true,
            });
        }
    } catch(e) {}

    // 拦截 HTMLSourceElement.src setter
    try {
        var srcDesc2 = Object.getOwnPropertyDescriptor(HTMLSourceElement.prototype, 'src');
        if (srcDesc2 && srcDesc2.set) {
            var origSrcSet2 = srcDesc2.set;
            Object.defineProperty(HTMLSourceElement.prototype, 'src', {
                set: function(val) {
                    if (typeof val === 'string') reportUrl(val);
                    return origSrcSet2.call(this, val);
                },
                get: srcDesc2.get,
                configurable: true,
            });
        }
    } catch(e) {}

    // ========== 拦截 hls.js ==========
    // hls.js 通过 loadSource(url) 加载视频
    try {
        if (window.Hls) {
            var origProto = window.Hls.prototype;
            var origLoadSource = origProto.loadSource;
            if (origLoadSource) {
                origProto.loadSource = function(url) {
                    if (typeof url === 'string') reportUrl(url);
                    return origLoadSource.apply(this, arguments);
                };
            }
        }
    } catch(e) {}

    // ========== DOM 变化监听 ==========
    var observer = new MutationObserver(function(mutations) {
        mutations.forEach(function(m) {
            m.addedNodes.forEach(function(node) {
                if (node.nodeType !== 1) return;
                if (node.src) reportUrl(node.src);
                if (node.href) reportUrl(node.href);
                // 扫描 script 标签内容
                if (node.tagName === 'SCRIPT' && node.textContent) {
                    scanText(node.textContent);
                }
                var sources = node.querySelectorAll ? node.querySelectorAll('video, source, [src], [data-src], script') : [];
                sources.forEach(function(el) {
                    if (el.src) reportUrl(el.src);
                    if (el.dataset && el.dataset.src) reportUrl(el.dataset.src);
                    if (el.tagName === 'SCRIPT' && el.textContent) scanText(el.textContent);
                });
            });
        });
    });
    // document-start 注入时 documentElement 可能为 null，包 try 并回退到 document，
    // 避免抛异常中断整个 IIFE（否则 fullScan/reportNotFound 永远建立不起来）
    try { observer.observe(document.documentElement || document, { childList: true, subtree: true }); } catch (e) {}

    // ========== 404 / 未找到检测 ==========
    // 页面明确是"找不到/404"时通知前端尽早结束，避免一直转圈等待。
    // 只看标题与 h1，避免误杀正常视频页（正片页标题为番号/片名，不含这些词）。
    var __notFoundReported = false;
    var NOT_FOUND_RE = /(^|[\s\-|·])(404|not\s*found|page\s*not\s*found|页面不存在|页面未找到|找不到页面|内容不存在|內容不存在|视频不存在|影片不存在|ページが見つかりません|お探しのページ)/i;
    function reportNotFound() {
        if (__notFoundReported) return;
        if (document.readyState !== 'complete') return;
        // 每源失败规则优先：命中配置的选择器（且文本含 fail_text，若非空）即判失败，立即让槽
        if (__FAIL_SEL__) {
            try {
                var __failEl = document.querySelector(__FAIL_SEL__);
                if (__failEl && (!__FAIL_TEXT__ || (__failEl.textContent || '').indexOf(__FAIL_TEXT__) !== -1)) {
                    __notFoundReported = true;
                    if (window.__TAURI__ && window.__TAURI__.event) {
                        window.__TAURI__.event.emit('video-finder-page-state', { site: __SITE__, state: 'not-found' });
                    }
                    return;
                }
            } catch(e) {}
        }
        var title = document.title || '';
        var h1 = document.querySelector('h1');
        var h1text = h1 ? (h1.textContent || '') : '';
        if (NOT_FOUND_RE.test(title) || NOT_FOUND_RE.test(h1text)) {
            __notFoundReported = true;
            try {
                if (window.__TAURI__ && window.__TAURI__.event) {
                    window.__TAURI__.event.emit('video-finder-page-state', { site: __SITE__, state: 'not-found' });
                }
            } catch(e) {}
        }
    }

    // ========== 定期扫描 ==========
    function fullScan() {
        // 顺带检测当前页面是否为 404 / 找不到
        reportNotFound();
        // 扫描所有 script 标签
        document.querySelectorAll('script').forEach(function(s) {
            scanText(s.textContent || '');
        });
        // 扫描 video/source 元素
        document.querySelectorAll('video, source, [src], [data-src]').forEach(function(el) {
            if (el.src) reportUrl(el.src);
            if (el.dataset && el.dataset.src) reportUrl(el.dataset.src);
        });
        // 扫描页面完整 HTML（兜底）
        scanText(document.documentElement.innerHTML);
    }

    // 首次扫描延迟 1 秒
    setTimeout(fullScan, 1000);
    // 之后每 3 秒扫描一次（持续 60 秒）
    var scanCount = 0;
    var scanInterval = setInterval(function() {
        fullScan();
        scanCount++;
        if (scanCount >= 20) clearInterval(scanInterval);
    }, 3000);
})();
"#;

/// The JSON text of a string (a quoted JavaScript string literal), as
/// `serde_json::to_string` writes it; `None` when serialisation fails.
pub uninterp spec fn json_quoted(s: Seq<char>) -> Option<Seq<char>>;

/// `serde_json::to_string` of a `&str`. The result is named (`json_quoted`),
/// a function of the text alone.
#[verifier::external_body]
fn json_quote(s: &str) -> (r: Option<String>)
    ensures
        match r {
            Some(q) => json_quoted(s@) == Some(q@),
            None => json_quoted(s@) is None,
        },
{
    serde_json::to_string(s).ok()
}

/// A text as a JavaScript string literal, `""` when it cannot be written.
pub open spec fn js_literal(s: Seq<char>) -> Seq<char> {
    match json_quoted(s) {
        Some(q) => q,
        None => "\"\""@,
    }
}

/// The interception script for a site: its id and its failure rule (selector
/// and text, each as a string literal) put in place of the placeholders.
pub open spec fn intercept_script(site_id: Seq<char>, fail_sel: Seq<char>, fail_text: Seq<char>) -> Seq<char> {
    replace_all(
        replace_all(
            replace_all(INTERCEPT_JS@, "__VIDEO_FINDER_SITE__"@, site_id),
            "__VIDEO_FINDER_FAIL_SEL__"@,
            js_literal(fail_sel),
        ),
        "__VIDEO_FINDER_FAIL_TEXT__"@,
        js_literal(fail_text),
    )
}

fn js_literal_of(s: &str) -> (r: Vec<char>)
    ensures
        r@ == js_literal(s@),
{
    match json_quote(s) {
        Some(q) => chars_of(q.as_str()),
        None => chars_of("\"\""),
    }
}

pub fn build_intercept_script(site_id: &str, fail_sel: &str, fail_text: &str) -> (r: String)
    ensures
        r@ == intercept_script(site_id@, fail_sel@, fail_text@),
{
    let js = chars_of(INTERCEPT_JS);
    let a = replace_str(&js, "__VIDEO_FINDER_SITE__", &chars_of(site_id));
    let b = replace_str(&a, "__VIDEO_FINDER_FAIL_SEL__", &js_literal_of(fail_sel));
    let c = replace_str(&b, "__VIDEO_FINDER_FAIL_TEXT__", &js_literal_of(fail_text));
    string_of(&c)
}

/// The script run in the video finder window: the challenge probe, a line
/// break, then the interception script.
pub fn finder_window_script(cf_probe: &str, intercept: &str) -> (r: String)
    ensures
        r@ == cf_probe@ + seq!['\n'] + intercept@,
{
    let mut nl: Vec<char> = Vec::new();
    nl.push('\n');
    let a = concat(&chars_of(cf_probe), &nl);
    assert(a@ =~= cf_probe@ + seq!['\n']);
    string_of(&concat(&a, &chars_of(intercept)))
}

} // verus!
