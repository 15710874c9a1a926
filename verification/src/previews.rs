//! The preview images shown for a video: the remote previews recorded in its
//! NFO, each replaced by the local copy of the same number when there is one,
//! followed by the local previews that no remote one stands for.

use vstd::prelude::*;
use crate::assets::{entry_views, opt_seq};
use crate::paths::{join, join_chars};
use crate::text::{chars_of, concat, decimal, decimal_chars, string_of, string_views, trim, trim_chars};

verus! {

/// One preview as the front end shows it: what to display, the local file
/// and the remote URL it stands for.
#[derive(Debug, Clone)]
pub struct VideoPreviewImageSource {
    pub src: String,
    pub local_path: Option<String>,
    pub remote_url: Option<String>,
}

pub open spec fn preview_view(v: VideoPreviewImageSource) -> (Seq<char>, Option<Seq<char>>, Option<Seq<char>>) {
    (v.src@, opt_seq(v.local_path), opt_seq(v.remote_url))
}

pub open spec fn preview_views(v: Seq<VideoPreviewImageSource>) -> Seq<(Seq<char>, Option<Seq<char>>, Option<Seq<char>>)> {
    v.map_values(|x: VideoPreviewImageSource| preview_view(x))
}

/// The local preview numbered `k`: the last entry with that number.
pub open spec fn local_at(e: Seq<(int, Seq<char>)>, k: int) -> Option<Seq<char>>
    decreases e.len(),
{
    if e.len() == 0 {
        None
    } else if e.last().0 == k {
        Some(e.last().1)
    } else {
        local_at(e.drop_last(), k)
    }
}

/// The previews for the remote URLs, the `n`-th standing for number `n`
/// (from 1): its local copy when there is one, else the trimmed URL unless
/// it is blank.
pub open spec fn remote_part(
    remote: Seq<Seq<char>>,
    e: Seq<(int, Seq<char>)>,
) -> Seq<(Seq<char>, Option<Seq<char>>, Option<Seq<char>>)>
    decreases remote.len(),
{
    if remote.len() == 0 {
        Seq::empty()
    } else {
        let r = remote_part(remote.drop_last(), e);
        match local_at(e, remote.len() as int) {
            Some(p) => r.push((p, Some(p), Some(remote.last()))),
            None => {
                let t = trim(remote.last());
                if t.len() == 0 {
                    r
                } else {
                    r.push((t, None, Some(t)))
                }
            },
        }
    }
}

/// The remote previews with no local copy, with their numbers: they are to be
/// downloaded.
pub open spec fn missing_part(remote: Seq<Seq<char>>, e: Seq<(int, Seq<char>)>) -> Seq<(int, Seq<char>)>
    decreases remote.len(),
{
    if remote.len() == 0 {
        Seq::empty()
    } else {
        let r = missing_part(remote.drop_last(), e);
        match local_at(e, remote.len() as int) {
            Some(_) => r,
            None => {
                let t = trim(remote.last());
                if t.len() == 0 {
                    r
                } else {
                    r.push((remote.len() as int, t))
                }
            },
        }
    }
}

/// The local files that stand for remote previews.
pub open spec fn used_paths(remote: Seq<Seq<char>>, e: Seq<(int, Seq<char>)>) -> Seq<Seq<char>>
    decreases remote.len(),
{
    if remote.len() == 0 {
        Seq::empty()
    } else {
        let r = used_paths(remote.drop_last(), e);
        match local_at(e, remote.len() as int) {
            Some(p) => r.push(p),
            None => r,
        }
    }
}

/// The last entry of each run of entries with the same number.
pub open spec fn dedup_last(e: Seq<(int, Seq<char>)>) -> Seq<(int, Seq<char>)>
    decreases e.len(),
{
    if e.len() == 0 {
        Seq::empty()
    } else {
        let r = dedup_last(e.drop_last());
        if r.len() > 0 && r.last().0 == e.last().0 {
            r.drop_last().push(e.last())
        } else {
            r.push(e.last())
        }
    }
}

/// The local previews not shown yet, in order, each file once.
pub open spec fn local_rest(
    m: Seq<(int, Seq<char>)>,
    used: Seq<Seq<char>>,
) -> Seq<(Seq<char>, Option<Seq<char>>, Option<Seq<char>>)>
    decreases m.len(),
{
    if m.len() == 0 {
        Seq::empty()
    } else {
        let p = m[0].1;
        if used.contains(p) {
            local_rest(m.drop_first(), used)
        } else {
            seq![(p, Some(p), None::<Seq<char>>)] + local_rest(m.drop_first(), used.push(p))
        }
    }
}

/// What is shown for a video whose NFO records `remote` previews and whose
/// preview directory holds the numbered entries `e` (ordered by number).
pub open spec fn preview_list(
    remote: Seq<Seq<char>>,
    e: Seq<(int, Seq<char>)>,
) -> Seq<(Seq<char>, Option<Seq<char>>, Option<Seq<char>>)> {
    remote_part(remote, e) + local_rest(dedup_last(e), used_paths(remote, e))
}

fn find_local(entries: &Vec<(usize, String)>, k: usize) -> (r: Option<String>)
    ensures
        opt_seq(r) == local_at(entry_views(entries@), k as int),
{
    let ghost ev = entry_views(entries@);
    let mut j: usize = entries.len();
    assert(ev.take(j as int) =~= ev);
    while j > 0
        invariant
            j <= entries.len(),
            ev == entry_views(entries@),
            local_at(ev, k as int) == local_at(ev.take(j as int), k as int),
        decreases j,
    {
        let ghost t = ev.take(j as int);
        assert(t.last() == ev[j - 1]);
        if entries[j - 1].0 == k {
            return Some(entries[j - 1].1.clone());
        }
        assert(t.drop_last() =~= ev.take(j - 1));
        j -= 1;
    }
    None
}

fn dedup_last_entries(entries: &Vec<(usize, String)>) -> (r: Vec<(usize, String)>)
    ensures
        entry_views(r@) == dedup_last(entry_views(entries@)),
{
    let ghost ev = entry_views(entries@);
    let mut m: Vec<(usize, String)> = Vec::new();
    let mut j: usize = 0;
    while j < entries.len()
        invariant
            j <= entries.len(),
            ev == entry_views(entries@),
            entry_views(m@) == dedup_last(ev.take(j as int)),
        decreases entries.len() - j,
    {
        assert(ev.take(j + 1).drop_last() =~= ev.take(j as int));
        assert(ev.take(j + 1).last() == ev[j as int]);
        let item = (entries[j].0, entries[j].1.clone());
        let ghost before = entry_views(m@);
        if m.len() > 0 && m[m.len() - 1].0 == entries[j].0 {
            m.pop();
            assert(entry_views(m@) =~= before.drop_last());
            m.push(item);
            assert(entry_views(m@) =~= before.drop_last().push(ev[j as int]));
        } else {
            m.push(item);
            assert(entry_views(m@) =~= before.push(ev[j as int]));
        }
        j += 1;
    }
    assert(ev.take(entries.len() as int) =~= ev);
    m
}

fn remote_previews(remote_urls: &Vec<String>, entries: &Vec<(usize, String)>) -> (r: (
    Vec<VideoPreviewImageSource>,
    Vec<(usize, String)>,
    Vec<String>,
))
    ensures
        preview_views(r.0@) == remote_part(string_views(remote_urls@), entry_views(entries@)),
        entry_views(r.1@) == missing_part(string_views(remote_urls@), entry_views(entries@)),
        string_views(r.2@) == used_paths(string_views(remote_urls@), entry_views(entries@)),
{
    let ghost rv = string_views(remote_urls@);
    let ghost ev = entry_views(entries@);
    let mut items: Vec<VideoPreviewImageSource> = Vec::new();
    let mut missing: Vec<(usize, String)> = Vec::new();
    let mut used: Vec<String> = Vec::new();
    let mut i: usize = 0;
    while i < remote_urls.len()
        invariant
            i <= remote_urls.len(),
            rv == string_views(remote_urls@),
            ev == entry_views(entries@),
            preview_views(items@) == remote_part(rv.take(i as int), ev),
            entry_views(missing@) == missing_part(rv.take(i as int), ev),
            string_views(used@) == used_paths(rv.take(i as int), ev),
        decreases remote_urls.len() - i,
    {
        let ghost t = rv.take(i + 1);
        assert(t.drop_last() =~= rv.take(i as int));
        assert(t.last() == remote_urls@[i as int]@);
        assert(t.len() == i + 1);
        let k: usize = i + 1;
        let ghost pi = preview_views(items@);
        let ghost pm = entry_views(missing@);
        let ghost pu = string_views(used@);
        match find_local(entries, k) {
            Some(p) => {
                let item = VideoPreviewImageSource {
                    src: p.clone(),
                    local_path: Some(p.clone()),
                    remote_url: Some(remote_urls[i].clone()),
                };
                items.push(item);
                assert(preview_views(items@) =~= pi.push((p@, Some(p@), Some(t.last()))));
                used.push(p);
                assert(string_views(used@) =~= pu.push(p@));
            },
            None => {
                let tc = trim_chars(&chars_of(remote_urls[i].as_str()));
                if tc.len() > 0 {
                    let s = string_of(&tc);
                    let item = VideoPreviewImageSource {
                        src: s.clone(),
                        local_path: None,
                        remote_url: Some(s.clone()),
                    };
                    items.push(item);
                    assert(preview_views(items@) =~= pi.push((tc@, None, Some(tc@))));
                    missing.push((k, s));
                    assert(entry_views(missing@) =~= pm.push((k as int, tc@)));
                }
            },
        }
        i += 1;
    }
    assert(rv.take(remote_urls.len() as int) =~= rv);
    (items, missing, used)
}

/// The previews to show for a video, and the remote ones to download.
///
/// `remote_urls` are the preview URLs recorded in the NFO; `entries` are the
/// numbered files of the preview directory, ordered by number (as
/// `collect_extrafanart_entries` gives them). The `n`-th remote URL is shown
/// by the local file numbered `n` when there is one; the remaining local files
/// follow, each once. The remote URLs without a local file are returned with
/// their numbers.
pub fn merge_preview_images(remote_urls: &Vec<String>, entries: &Vec<(usize, String)>) -> (r: (
    Vec<VideoPreviewImageSource>,
    Vec<(usize, String)>,
))
    ensures
        preview_views(r.0@) == preview_list(string_views(remote_urls@), entry_views(entries@)),
        entry_views(r.1@) == missing_part(string_views(remote_urls@), entry_views(entries@)),
{
    let ghost rv = string_views(remote_urls@);
    let ghost ev = entry_views(entries@);
    let (mut items, missing, mut used) = remote_previews(remote_urls, entries);
    let m = dedup_last_entries(entries);
    let ghost mv = entry_views(m@);
    let ghost head = preview_views(items@);
    let ghost used0 = string_views(used@);
    let mut j: usize = 0;
    assert(mv.skip(0) =~= mv);
    assert(head + Seq::<(Seq<char>, Option<Seq<char>>, Option<Seq<char>>)>::empty() =~= head);
    while j < m.len()
        invariant
            j <= m.len(),
            mv == entry_views(m@),
            preview_views(items@) + local_rest(mv.skip(j as int), string_views(used@)) == head
                + local_rest(mv, used0),
        decreases m.len() - j,
    {
        let ghost rest = mv.skip(j as int);
        let ghost u = string_views(used@);
        assert(rest.drop_first() =~= mv.skip(j + 1));
        assert(rest[0] == mv[j as int]);
        assert(mv[j as int].1 == m@[j as int].1@);
        let p = &m[j].1;
        if !crate::text::list_contains(&used, &chars_of(p.as_str())) {
            let ghost before = preview_views(items@);
            items.push(VideoPreviewImageSource { src: p.clone(), local_path: Some(p.clone()), remote_url: None });
            assert(preview_views(items@) =~= before.push((p@, Some(p@), None::<Seq<char>>)));
            used.push(p.clone());
            assert(string_views(used@) =~= u.push(p@));
            assert(before.push((p@, Some(p@), None::<Seq<char>>)) + local_rest(mv.skip(j + 1), u.push(p@))
                =~= before + (seq![(p@, Some(p@), None::<Seq<char>>)] + local_rest(mv.skip(j + 1), u.push(p@))));
        }
        j += 1;
    }
    assert(mv.skip(m.len() as int) =~= Seq::<(int, Seq<char>)>::empty());
    assert(preview_views(items@) + Seq::<(Seq<char>, Option<Seq<char>>, Option<Seq<char>>)>::empty() =~= preview_views(items@));
    (items, missing)
}


/// The file a downloaded preview number `index` is saved to:
/// `<dir>/extrafanart/fanart<index>.jpg`.
pub open spec fn preview_file(asset_dir: Seq<char>, index: int) -> Seq<char> {
    join(join(asset_dir, "extrafanart"@), "fanart"@ + decimal(index as nat) + ".jpg"@)
}

/// The previews to download into `asset_dir`: each non-blank URL (trimmed)
/// with its number and the file it goes to.
pub open spec fn download_plan(asset_dir: Seq<char>, images: Seq<(int, Seq<char>)>) -> Seq<(int, Seq<char>, Seq<char>)>
    decreases images.len(),
{
    if images.len() == 0 {
        Seq::empty()
    } else {
        let r = download_plan(asset_dir, images.drop_last());
        let (k, u) = images.last();
        let t = trim(u);
        if t.len() == 0 {
            r
        } else {
            r.push((k, t, preview_file(asset_dir, k)))
        }
    }
}

pub open spec fn plan_views(v: Seq<(usize, String, String)>) -> Seq<(int, Seq<char>, Seq<char>)> {
    v.map_values(|e: (usize, String, String)| (e.0 as int, e.1@, e.2@))
}

/// Where each preview to download goes.
pub fn preview_download_plan(asset_dir: &str, images: &Vec<(usize, String)>) -> (r: Vec<(usize, String, String)>)
    ensures
        plan_views(r@) == download_plan(asset_dir@, entry_views(images@)),
{
    let ghost ev = entry_views(images@);
    let dir = chars_of(asset_dir);
    let ef = join_chars(&dir, &chars_of("extrafanart"));
    let mut out: Vec<(usize, String, String)> = Vec::new();
    let mut i: usize = 0;
    while i < images.len()
        invariant
            i <= images.len(),
            ev == entry_views(images@),
            dir@ == asset_dir@,
            ef@ == join(asset_dir@, "extrafanart"@),
            plan_views(out@) == download_plan(asset_dir@, ev.take(i as int)),
        decreases images.len() - i,
    {
        assert(ev.take(i + 1).drop_last() =~= ev.take(i as int));
        assert(ev.take(i + 1).last() == ev[i as int]);
        let t = trim_chars(&chars_of(images[i].1.as_str()));
        if t.len() > 0 {
            let k = images[i].0;
            let name = concat(&concat(&chars_of("fanart"), &decimal_chars(k as u64)), &chars_of(".jpg"));
            let path = join_chars(&ef, &name);
            let ghost before = plan_views(out@);
            out.push((k, string_of(&t), string_of(&path)));
            assert(plan_views(out@) =~= before.push((k as int, t@, path@)));
        }
        i += 1;
    }
    assert(ev.take(images.len() as int) =~= ev);
    out
}

} // verus!
