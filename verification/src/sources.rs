//! Metadata sources: their capabilities, the configured site list, and the
//! request URLs of the sources whose parsers live in this crate.

use vstd::prelude::*;
use crate::text::{owned, string_of, chars_of, concat, to_lowercase, to_uppercase, unicode_lower, unicode_upper};

verus! {

/// Which works (by censorship class of the designation) a source can serve.
#[derive(Debug, Clone, Copy, PartialEq, Eq, Structural)]
pub enum SourceCapability {
    /// Both kinds (most general sources; the default).
    General,
    /// Censored works only.
    CensoredOnly,
    /// Uncensored works only.
    UncensoredOnly,
}

impl SourceCapability {
    /// Whether a source of this capability should handle a work whose
    /// designation is (`true`) or is not (`false`) uncensored.
    pub fn handles(&self, is_uncensored: bool) -> (r: bool)
        ensures
            r == match *self {
                SourceCapability::General => true,
                SourceCapability::CensoredOnly => !is_uncensored,
                SourceCapability::UncensoredOnly => is_uncensored,
            },
    {
        match self {
            SourceCapability::General => true,
            SourceCapability::CensoredOnly => !is_uncensored,
            SourceCapability::UncensoredOnly => is_uncensored,
        }
    }
}

/// A configured metadata site.
#[derive(Debug, Clone)]
pub struct ResourceSite {
    /// Unique id such as `javbus`.
    pub id: String,
    /// Display name.
    pub name: String,
    /// Home page of the site.
    pub url: String,
    /// Whether the site is used.
    pub enabled: bool,
    /// Average richness score (0-100) over past scrapes.
    pub avg_score: Option<u32>,
    /// Number of scrapes that returned a result.
    pub scrape_count: Option<u32>,
}

/// Mathematical value of a [`ResourceSite`].
pub struct SiteView {
    pub id: Seq<char>,
    pub name: Seq<char>,
    pub url: Seq<char>,
    pub enabled: bool,
    pub avg_score: Option<u32>,
    pub scrape_count: Option<u32>,
}

impl View for ResourceSite {
    type V = SiteView;

    open spec fn view(&self) -> SiteView {
        SiteView {
            id: self.id@,
            name: self.name@,
            url: self.url@,
            enabled: self.enabled,
            avg_score: self.avg_score,
            scrape_count: self.scrape_count,
        }
    }
}

/// A copy of a site.
pub fn copy_site(s: &ResourceSite) -> (r: ResourceSite)
    ensures
        r@ == s@,
{
    ResourceSite {
        id: s.id.clone(),
        name: s.name.clone(),
        url: s.url.clone(),
        enabled: s.enabled,
        avg_score: s.avg_score,
        scrape_count: s.scrape_count,
    }
}

pub open spec fn site_views(v: Seq<ResourceSite>) -> Seq<SiteView> {
    v.map_values(|s: ResourceSite| s@)
}

/// A freshly configured site: enabled, with no statistics yet.
pub open spec fn fresh_site(id: &str, name: &str, url: &str) -> SiteView {
    SiteView { id: id@, name: name@, url: url@, enabled: true, avg_score: None, scrape_count: None }
}

/// The built-in site list, in priority order.
pub open spec fn default_site_table() -> Seq<SiteView> {
    seq![
        fresh_site("javbus", "数据源 1", "https://www.javbus.com"),
        fresh_site("javmenu", "数据源 2", "https://javmenu.com"),
        fresh_site("javsb", "数据源 3", "https://jav.sb"),
        fresh_site("javxx", "数据源 4", "https://javxx.to"),
        fresh_site("javplace", "数据源 5", "https://jav.place"),
        fresh_site("projectjav", "数据源 6", "https://projectjav.com"),
        fresh_site("3xplanet", "数据源 7", "https://3xplanet.com"),
        fresh_site("freejavbt", "数据源 8", "https://freejavbt.com"),
        fresh_site("javlibrary", "数据源 9", "https://www.javlibrary.com"),
        fresh_site("javguru", "数据源 10", "https://jav.guru"),
        fresh_site("javtiful", "数据源 11", "https://javtiful.com"),
        fresh_site("123av", "数据源 12", "https://123av.com"),
        fresh_site("myjav", "数据源 13", "https://cn.myjav.tv"),
        fresh_site("javgg", "数据源 14", "https://javgg.net"),
        fresh_site("javmost", "数据源 15", "https://www.javmost.ws"),
        fresh_site("sextb", "数据源 16", "https://sextb.net"),
        fresh_site("avsox", "数据源 17（无码）", "https://avsox.click"),
    ]
}

fn make_site(id: &str, name: &str, url: &str) -> (r: ResourceSite)
    ensures
        r@ == fresh_site(id, name, url),
{
    ResourceSite {
        id: owned(id),
        name: owned(name),
        url: owned(url),
        enabled: true,
        avg_score: None,
        scrape_count: None,
    }
}

/// The built-in site list: every site enabled and without statistics.
pub fn default_sites() -> (r: Vec<ResourceSite>)
    ensures
        site_views(r@) == default_site_table(),
{
    let mut v: Vec<ResourceSite> = Vec::new();
    v.push(make_site("javbus", "数据源 1", "https://www.javbus.com"));
    v.push(make_site("javmenu", "数据源 2", "https://javmenu.com"));
    v.push(make_site("javsb", "数据源 3", "https://jav.sb"));
    v.push(make_site("javxx", "数据源 4", "https://javxx.to"));
    v.push(make_site("javplace", "数据源 5", "https://jav.place"));
    v.push(make_site("projectjav", "数据源 6", "https://projectjav.com"));
    v.push(make_site("3xplanet", "数据源 7", "https://3xplanet.com"));
    v.push(make_site("freejavbt", "数据源 8", "https://freejavbt.com"));
    v.push(make_site("javlibrary", "数据源 9", "https://www.javlibrary.com"));
    v.push(make_site("javguru", "数据源 10", "https://jav.guru"));
    v.push(make_site("javtiful", "数据源 11", "https://javtiful.com"));
    v.push(make_site("123av", "数据源 12", "https://123av.com"));
    v.push(make_site("myjav", "数据源 13", "https://cn.myjav.tv"));
    v.push(make_site("javgg", "数据源 14", "https://javgg.net"));
    v.push(make_site("javmost", "数据源 15", "https://www.javmost.ws"));
    v.push(make_site("sextb", "数据源 16", "https://sextb.net"));
    v.push(make_site("avsox", "数据源 17（无码）", "https://avsox.click"));
    assert(site_views(v@) =~= default_site_table());
    v
}

/// `prefix` followed by `tail`, as a `String`.
fn prefixed(prefix: &str, tail: &Vec<char>) -> (r: String)
    ensures
        r@ == prefix@ + tail@,
{
    let p = chars_of(prefix);
    let all = concat(&p, tail);
    string_of(&all)
}

/// The 123av source.
pub struct Av123;

impl Av123 {
    pub fn name(&self) -> (r: &'static str)
        ensures
            r@ == "123av"@,
    {
        "123av"
    }

    /// Detail page of a designation (lower-cased).
    pub fn build_url(&self, code: &str) -> (r: String)
        ensures
            r@ == "https://123av.com/cn/v/"@ + unicode_lower(code@),
    {
        let lower = to_lowercase(code);
        let lv = chars_of(lower.as_str());
        prefixed("https://123av.com/cn/v/", &lv)
    }
}

/// The avgood source.
pub struct AvGood;

impl AvGood {
    pub fn name(&self) -> (r: &'static str)
        ensures
            r@ == "avgood"@,
    {
        "avgood"
    }

    /// Search page of a designation.
    pub fn build_url(&self, code: &str) -> (r: String)
        ensures
            r@ == "https://avgood.com/c/s/?q="@ + code@,
    {
        let cv = chars_of(code);
        prefixed("https://avgood.com/c/s/?q=", &cv)
    }
}

/// The avsox source (uncensored works only).
pub struct Avsox;

impl Avsox {
    pub fn name(&self) -> (r: &'static str)
        ensures
            r@ == "avsox"@,
    {
        "avsox"
    }

    pub fn capability(&self) -> (r: SourceCapability)
        ensures
            r == SourceCapability::UncensoredOnly,
    {
        SourceCapability::UncensoredOnly
    }

    /// Search page of a designation.
    pub fn build_url(&self, code: &str) -> (r: String)
        ensures
            r@ == "https://avsox.click/cn/search/"@ + code@,
    {
        let cv = chars_of(code);
        prefixed("https://avsox.click/cn/search/", &cv)
    }
}

/// The jav.guru source.
pub struct JavGuru;

impl JavGuru {
    pub fn name(&self) -> (r: &'static str)
        ensures
            r@ == "javguru"@,
    {
        "javguru"
    }

    /// Search page of a designation (upper-cased).
    pub fn build_url(&self, code: &str) -> (r: String)
        ensures
            r@ == "https://jav.guru/?s="@ + unicode_upper(code@),
    {
        let upper = to_uppercase(code);
        let uv = chars_of(upper.as_str());
        prefixed("https://jav.guru/?s=", &uv)
    }
}

} // verus!
