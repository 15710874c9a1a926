use javm::finder::{build_intercept_script, finder_window_script};
use javm::actor::{caches_source_id, lane_for_code, work_detail_url, Lane};
use javm::webview::EventCounter;
use javm::media_write::{artwork_to_keep, media_location, preview_items, scrape_save_result, step_error, wants_subtitle, MediaStep, MediaWriteOutcome};
use javm::download::{enters_merge_stage, exit_failure_message, final_byte_count};
use javm::assets::{named_dir_conflict, pick_asset_source, stack_sibling_target};
use javm::assets::{check_rename_target, rename_failure_message, stop_rename_run, PendingRenameOperation};
use javm::scrape_queue::{failed_run_outcome, files_to_queue, queue_concurrency, FailedRunOutcome};
use javm::task_edit::{plan_rename, plan_save_path_change, retry_stops_process, work_dir_name, work_dir_to_clear_on_delete, TaskEditPlan};
use javm::sources::Avsox;
use javm::avsox_api::pick_movie_id;
use javm::previews::preview_download_plan;
use javm::records::{avatars_to_record, cover_dimensions, video_scrape_update};
use javm::scrape::{ActorAvatar, ScrapeMetadata};
use javm::artwork::ArtworkResult;
use javm::finder::offered_video_sites;
use javm::settings::DownloadSource;
use javm::hls::resolution_from_captures;
use javm::download::file_name_from_segments;
use javm::scrape::{resolved_or_kept, with_page_scheme};
use javm::settings::{normalize_ad_filter_settings, AdFilterSettings};
use javm::assets::{rename_video_assets_with_title, RenameFacts};
use javm::assets::named_parent_target;
use javm::assets::{optional_asset_move, AssetMove};
use javm::paths::remap_path_after_dir_rename;
use javm::settings::{normalize_scrape_settings, ScrapeSettings};
use javm::storage::{resolve_existing_asset_dir, sync_independent_strm, MetadataStorageConfig, RootEntry};
use javm::scrape::normalize_result_url;
use javm::previews::merge_preview_images;
use javm::download::{needs_cover_capture, post_download_action, PostDownloadAction};
use javm::routing::{fusion_without_sources_error, FuseEvent, FuseWindow};
use javm::artwork::{is_undersized_dims, landscape_source, orientation_of_dims};
use javm::scrape::search_request_code;
use javm::actor::{normalize_birthday, parse_measurements, BatchProgress};
use javm::assets::{collect_extrafanart_entries, next_extrafanart_index};
use javm::avsox::same_code_loose;
use javm::download::{
    collect_output_segments, extract_filename_from_url, fast_hash_hex, keep_tail, status_code_to_chinese,
    status_code_to_string, strip_ansi_escape_codes, DownloadTask,
};
use javm::hls::{parse_resolution_from_url, parse_stream_inf, resolve_relative_url};
use javm::queue::DownloadQueue;
use javm::scrape::{compute_search_result_detail_score, SearchResult};
use javm::settings::{merge_scrape_sites, normalize_anti_block_settings, normalize_keyword_list, AntiBlockSettings};
use javm::sources::{default_sites, Av123};
use javm::storage::{sanitize_path_component, strm_write_needed};
use javm::subtitle::normalize_id;
use javm::webview::{build_cf_probe_script, next_event_name};

fn task(id: &str) -> DownloadTask {
    DownloadTask { id: id.to_string(), url: format!("https://x/{id}.m3u8"), save_path: "/d".to_string(), filename: None }
}

fn is_reserved(c: char) -> bool {
    matches!(c, '<' | '>' | ':' | '"' | '/' | '\\' | '|' | '?' | '*')
}

#[test]
fn normalize_id_is_idempotent() {
    let once = normalize_id("ssis-001 eng");
    assert_eq!(once, "SSIS001ENG");
    assert_eq!(normalize_id(&once), once);
}

#[test]
fn same_code_loose_is_symmetric_and_reflexive() {
    assert_eq!(same_code_loose("SMBD-050", "SMBD-50"), same_code_loose("SMBD-50", "SMBD-050"));
    assert_eq!(same_code_loose("110615_001", "110615-001"), same_code_loose("110615-001", "110615_001"));
    assert!(same_code_loose("abc-001", "abc-001"));
}

#[test]
fn sanitized_component_is_a_legal_file_name() {
    let r = sanitize_path_component("a<b>c|d\"e\u{7}f. . ", "x");
    assert_eq!(r, "a_b_c_d_e f");
    assert!(!r.chars().any(|c| is_reserved(c) || c.is_control()));

    let long = "名".repeat(150);
    let cut = sanitize_path_component(&long, "x");
    assert_eq!(cut.chars().count(), 100);

    let dots = sanitize_path_component("title...", "x");
    assert_eq!(dots, "title");
}

#[test]
fn strm_write_is_idempotent() {
    let first = strm_write_needed(None, " /v/a.mp4 ").expect("absent .strm is written");
    assert_eq!(first, "/v/a.mp4");
    assert!(strm_write_needed(Some(first.as_str()), " /v/a.mp4 ").is_none());
    assert!(strm_write_needed(Some("/v/a.mp4\n"), "/v/a.mp4").is_none());
    assert_eq!(strm_write_needed(Some("/old/a.mp4"), "/v/a.mp4").as_deref(), Some("/v/a.mp4"));
}

#[test]
fn keep_tail_fits_and_starts_on_a_character() {
    assert_eq!(keep_tail("héllo", 4), "llo");
    assert_eq!(keep_tail("abc", 5), "abc");
    assert_eq!(keep_tail("abcdef", 3), "def");
    assert!(keep_tail("日本語テキスト", 5).len() <= 5);
}

#[test]
fn output_segments_leave_only_a_partial_line() {
    let mut pending = String::from("a\r\n b \n\npartial");
    let segs = collect_output_segments(&mut pending);
    assert_eq!(segs, vec!["a", "b"]);
    assert_eq!(pending, "partial");

    let mut none = String::from("no break yet");
    assert!(collect_output_segments(&mut none).is_empty());
    assert_eq!(none, "no break yet");
}

#[test]
fn queue_refuses_an_active_id() {
    let mut q = DownloadQueue::new();
    assert!(q.add_task(task("t1")));
    assert!(!q.add_task(task("t1")));
    assert!(q.is_active("t1"));
    assert!(q.add_task(task("t2")));
    let first = q.pop_next().unwrap();
    assert_eq!(first.id, "t1");
    assert!(!q.add_task(task("t1")));
    q.finish("t1");
    assert!(!q.is_active("t1"));
    assert!(q.add_task(task("t1")));
    q.stop("t2");
    assert!(!q.is_active("t2"));
    let next = q.pop_next().unwrap();
    assert_eq!(next.id, "t1");
    assert!(q.pop_next().is_none());
    q.clear();
    assert!(!q.is_active("t1"));
}

#[test]
fn batch_progress_counts_every_fetch_once() {
    let mut p = BatchProgress::new(3);
    assert!(p.running(false));
    p.record(true);
    p.record(false);
    p.record(true);
    assert!(!p.running(false));
    let s = p.summary();
    assert_eq!((s.total, s.succeeded, s.failed), (3, 2, 1));
    assert_eq!(p.done, s.succeeded + s.failed);
    assert!(!BatchProgress::new(2).running(true));
}

#[test]
fn detail_score_stays_in_range() {
    let full = SearchResult {
        code: "ABC-123".into(),
        title: "t".into(),
        actors: "a".into(),
        duration: "120分钟".into(),
        studio: "s".into(),
        cover_url: "c".into(),
        poster_url: "p".into(),
        director: "d".into(),
        tags: "x".into(),
        premiered: "2020-01-01".into(),
        plot: "plot".into(),
        maker: "m".into(),
        publisher: "p".into(),
        label: "l".into(),
        set_name: "s".into(),
        genres: "g".into(),
        thumbs: vec!["1.jpg".into(), "2.jpg".into()],
        ..Default::default()
    };
    let s = compute_search_result_detail_score(&full, "landscape");
    assert!((0..=100).contains(&s));
    let bare = SearchResult { thumbs: Vec::new(), ..full.clone() };
    let b = compute_search_result_detail_score(&bare, "landscape");
    assert!((0..=20).contains(&b));
    assert_eq!(compute_search_result_detail_score(&SearchResult::default(), ""), 0);
}

#[test]
fn anti_block_normalisation_orders_and_caps() {
    let mut a = AntiBlockSettings {
        min_interval_ms: 90_000,
        max_interval_ms: 500,
        max_retries: 9,
        proxies: vec![" http://p1 ".into(), "http://p1".into(), "".into(), "http://p2".into()],
        ..Default::default()
    };
    normalize_anti_block_settings(&mut a);
    assert_eq!(a.max_interval_ms, 60_000);
    assert_eq!(a.min_interval_ms, 500);
    assert_eq!(a.max_retries, 5);
    assert_eq!(a.proxies, vec!["http://p1", "http://p2"]);
}

#[test]
fn keyword_list_keeps_first_of_case_duplicates() {
    let mut ks: Vec<String> = vec!["Foo".into(), " foo ".into(), "  ".into(), " bar ".into()];
    normalize_keyword_list(&mut ks);
    assert_eq!(ks, vec!["Foo", "bar"]);
}

#[test]
fn merged_sites_follow_the_built_in_list() {
    let mut saved = default_sites();
    saved.reverse();
    for s in saved.iter_mut() {
        if s.id == "javguru" {
            s.enabled = false;
        }
    }
    let merged = merge_scrape_sites(&saved);
    let ids: Vec<String> = merged.iter().map(|s| s.id.clone()).collect();
    let defaults: Vec<String> = default_sites().iter().map(|s| s.id.clone()).collect();
    assert_eq!(ids, defaults);
    assert!(!merged.iter().find(|s| s.id == "javguru").unwrap().enabled);
    assert_eq!(merge_scrape_sites(&Vec::new()).len(), 17);
}

#[test]
fn extrafanart_entries_sorted_and_next_index_fresh() {
    let paths: Vec<String> = vec![
        "/m/extrafanart/fanart3.jpg".into(),
        "/m/extrafanart/fanart1.jpg".into(),
        "/m/extrafanart/readme.txt".into(),
        "/m/extrafanart/fanart12.png".into(),
    ];
    let entries = collect_extrafanart_entries(&paths);
    let idx: Vec<usize> = entries.iter().map(|e| e.0).collect();
    assert_eq!(idx, vec![1, 3, 12]);
    assert_eq!(next_extrafanart_index(&entries), 13);
    assert_eq!(next_extrafanart_index(&Vec::new()), 1);
}

#[test]
fn status_names() {
    assert_eq!(status_code_to_string(2), "downloading");
    assert_eq!(status_code_to_string(9), "cancelled");
    assert_eq!(status_code_to_string(42), "unknown");
    assert_eq!(status_code_to_chinese(6), "已完成");
    assert_eq!(status_code_to_chinese(-1), "未知");
}

#[test]
fn fast_hash_matches_adler32_chain() {
    assert_eq!(fast_hash_hex(0, &[], None), "0");
    assert_eq!(fast_hash_hex(5, b"hello", None), "0675021a");
    let head = vec![b'a'; 4096];
    let tail = vec![b'b'; 904];
    assert_eq!(fast_hash_hex(5000, &head, Some(&tail)), "62866b15");
}

#[test]
fn filename_from_url_uses_last_path_segment() {
    assert_eq!(extract_filename_from_url("https://x.com/a/b/file.mp4?x=1").as_deref(), Some("file.mp4"));
    assert!(extract_filename_from_url("https://x.com/a/").is_none());
    assert!(extract_filename_from_url("not a url").is_none());
}

#[test]
fn ansi_codes_are_stripped() {
    assert_eq!(strip_ansi_escape_codes("\u{1b}[31mred\u{1b}[0m text"), "red text");
    assert_eq!(strip_ansi_escape_codes("plain"), "plain");
}

#[test]
fn hls_helpers() {
    assert_eq!(parse_stream_inf("BANDWIDTH=1280000,RESOLUTION=1280x720,CODECS=\"a\""), (1_280_000, 1280, 720));
    assert_eq!(parse_stream_inf("BANDWIDTH=abc"), (0, 0, 0));
    assert_eq!(parse_resolution_from_url("https://cdn/1920x1080/index.m3u8"), (1920, 1080));
    assert_eq!(parse_resolution_from_url("https://cdn/720p/index.m3u8"), (0, 720));
    assert_eq!(parse_resolution_from_url("https://cdn/index.m3u8"), (0, 0));
    assert_eq!(resolve_relative_url("https://cdn/a/master.m3u8", "/v1/index.m3u8"), "https://cdn/a/v1/index.m3u8");
    assert_eq!(resolve_relative_url("https://cdn/a/master.m3u8", "https://o/x.m3u8"), "https://o/x.m3u8");
}

#[test]
fn measurements_and_birthday() {
    assert_eq!(parse_measurements("b88/w58/h85"), (Some(88), Some(58), Some(85)));
    assert_eq!(parse_measurements("B88"), (Some(88), None, None));
    assert_eq!(normalize_birthday("1995-04-03T00:00:00Z").as_deref(), Some("1995-04-03"));
    assert!(normalize_birthday("0001-01-01T00:00:00Z").is_none());
    assert!(normalize_birthday("").is_none());
}

#[test]
fn scripts_quote_event_names() {
    let name = next_event_name("cf", 7);
    assert_eq!(name, "cf-7");
    let script = build_cf_probe_script("evt\"x", "function __javmDetectCloudflareChallenge(){return false;}");
    assert!(script.contains("emit(\"evt\\\"x\", detected)"));
    assert!(script.contains("function __javmDetectCloudflareChallenge"));
}

#[test]
fn lower_cased_detail_page() {
    assert_eq!(Av123.build_url("ABC-123"), "https://123av.com/cn/v/abc-123");
}

#[test]
fn preview_list_prefers_local_copies() {
    let paths: Vec<String> = vec!["/e/fanart1.jpg".into(), "/e/fanart4.jpg".into(), "/e/fanart2.png".into()];
    let entries = collect_extrafanart_entries(&paths);
    let remote: Vec<String> = vec!["r1".into(), "  ".into(), " r3 ".into()];
    let (items, missing) = merge_preview_images(&remote, &entries);
    let view: Vec<(String, Option<String>, Option<String>)> =
        items.iter().map(|i| (i.src.clone(), i.local_path.clone(), i.remote_url.clone())).collect();
    assert_eq!(
        view,
        vec![
            ("/e/fanart1.jpg".to_string(), Some("/e/fanart1.jpg".to_string()), Some("r1".to_string())),
            ("/e/fanart2.png".to_string(), Some("/e/fanart2.png".to_string()), Some("  ".to_string())),
            ("r3".to_string(), None, Some("r3".to_string())),
            ("/e/fanart4.jpg".to_string(), Some("/e/fanart4.jpg".to_string()), None),
        ]
    );
    assert_eq!(missing, vec![(3usize, "r3".to_string())]);
}

#[test]
fn post_download_decisions() {
    assert_eq!(post_download_action(false, true, true, false), PostDownloadAction::Skip);
    assert_eq!(post_download_action(true, true, false, false), PostDownloadAction::Skip);
    assert_eq!(post_download_action(true, true, true, true), PostDownloadAction::Skip);
    assert_eq!(post_download_action(true, true, true, false), PostDownloadAction::Scrape);
    assert_eq!(post_download_action(true, false, false, false), PostDownloadAction::CaptureCover);
    assert!(needs_cover_capture(PostDownloadAction::Scrape, false));
    assert!(!needs_cover_capture(PostDownloadAction::Scrape, true));
    assert!(needs_cover_capture(PostDownloadAction::CaptureCover, true));
    assert!(!needs_cover_capture(PostDownloadAction::Skip, false));
}

#[test]
fn fuse_window_waits_for_grace_after_first_result() {
    let mut w = FuseWindow::new(1000);
    assert_eq!(w.deadline(), 9000);
    assert!(w.on_event(FuseEvent::Result(2000)));
    assert_eq!(w.deadline(), 3500);
    assert!(w.on_event(FuseEvent::Result(3000)));
    assert_eq!(w.deadline(), 3500);
    assert_eq!(w.received, 2);
    assert!(!w.on_event(FuseEvent::DeadlinePassed));
    let mut late = FuseWindow::new(0);
    assert!(late.on_event(FuseEvent::Result(7900)));
    assert_eq!(late.deadline(), 8000);
    assert!(!late.on_event(FuseEvent::Closed));
    assert_eq!(
        fusion_without_sources_error(0, false).as_deref(),
        Some("未启用任何刮削网站，请先在设置中开启至少一个网站")
    );
    assert!(fusion_without_sources_error(0, true).is_none());
    assert!(fusion_without_sources_error(2, false).is_none());
}

#[test]
fn image_dimension_decisions() {
    assert!(is_undersized_dims(125, 100));
    assert!(!is_undersized_dims(800, 538));
    assert_eq!(orientation_of_dims(538, 800), Some("portrait"));
    assert_eq!(orientation_of_dims(800, 538), Some("landscape"));
    assert_eq!(orientation_of_dims(0, 10), None);
    assert_eq!(landscape_source("c", "p"), Some("c"));
    assert_eq!(landscape_source("  ", "p"), Some("p"));
    assert_eq!(landscape_source("", " "), None);
}

#[test]
fn search_request_code_rejects_blank() {
    assert_eq!(search_request_code("  ").unwrap_err(), "番号不能为空");
    assert_eq!(search_request_code(" ssis666 ").unwrap(), "SSIS-666");
}

#[test]
fn independent_dir_is_found_among_root_entries() {
    let cfg = MetadataStorageConfig { independent: true, root_dir: "/meta".to_string() };
    let entries = vec![
        RootEntry { name: "ABC-1234 other".into(), is_dir: true, has_strm: false },
        RootEntry { name: "ABC-123 标题文字".into(), is_dir: true, has_strm: true },
        RootEntry { name: "ABC-123 file".into(), is_dir: false, has_strm: false },
    ];
    let (dir, stem) = resolve_existing_asset_dir("D:/v/raw_name.mp4", "ABC-123", &cfg, &entries);
    assert_eq!(dir, "/meta/ABC-123 标题文字");
    assert_eq!(stem, "ABC-123");

    let (dir2, stem2) = resolve_existing_asset_dir("D:/v/raw_name.mp4", "ZZZ-999", &cfg, &entries);
    assert_eq!(dir2, "D:/v");
    assert_eq!(stem2, "raw_name");

    let spec = sync_independent_strm(&cfg, "ABC-123", "E:/new/ABC-123.mp4", &entries).unwrap();
    assert_eq!(spec.path, "/meta/ABC-123 标题文字/ABC-123.strm");
    assert_eq!(spec.video_abs_path, "E:/new/ABC-123.mp4");

    let off = MetadataStorageConfig { independent: false, root_dir: "/meta".to_string() };
    assert!(sync_independent_strm(&off, "ABC-123", "X", &entries).is_none());
}

#[test]
fn protocol_relative_urls_take_the_page_scheme() {
    assert_eq!(normalize_result_url("//cdn.x/a.jpg", "http://site/x"), "http://cdn.x/a.jpg");
    assert_eq!(normalize_result_url("//cdn.x/a.jpg", "not a url"), "https://cdn.x/a.jpg");
    assert_eq!(normalize_result_url("  ", "http://site/x"), "");
    assert_eq!(normalize_result_url("img/a.jpg", "https://site/dir/page.html"), "https://site/dir/img/a.jpg");
}

#[test]
fn scrape_settings_normalisation_settles() {
    let mut s = ScrapeSettings {
        concurrent: 50,
        scraper_priority: vec!["javsb".into(), "nope".into(), "javbus".into()],
        default_site: "nope".into(),
        ..Default::default()
    };
    normalize_scrape_settings(&mut s);
    assert_eq!(s.concurrent, 10);
    assert_eq!(s.scraper_priority, vec!["javsb", "javbus"]);
    assert_eq!(s.default_site, "javbus");
    let once: Vec<String> = s.scraper_priority.clone();
    let sites_once: Vec<(String, bool)> = s.sites.iter().map(|x| (x.id.clone(), x.enabled)).collect();
    normalize_scrape_settings(&mut s);
    assert_eq!(s.concurrent, 10);
    assert_eq!(s.scraper_priority, once);
    assert_eq!(s.default_site, "javbus");
    let sites_twice: Vec<(String, bool)> = s.sites.iter().map(|x| (x.id.clone(), x.enabled)).collect();
    assert_eq!(sites_once, sites_twice);

    let mut unknown = ScrapeSettings { scraper_priority: vec!["nope".into()], ..Default::default() };
    normalize_scrape_settings(&mut unknown);
    assert!(unknown.scraper_priority.is_empty());
    normalize_scrape_settings(&mut unknown);
    assert_eq!(unknown.scraper_priority.len(), 17);
}

#[test]
fn optional_asset_moves() {
    match optional_asset_move("/a/x-poster.jpg", "/a/X", true, false) {
        AssetMove::Move(s, t) => {
            assert_eq!(s, "/a/x-poster.jpg");
            assert_eq!(t, "/a/X/x-poster.jpg");
        }
        other => panic!("unexpected {:?}", other),
    }
    match optional_asset_move("/a/x-poster.jpg", "/a/X", false, true) {
        AssetMove::Kept(t) => assert_eq!(t, "/a/X/x-poster.jpg"),
        other => panic!("unexpected {:?}", other),
    }
    assert!(matches!(optional_asset_move("/a/x-poster.jpg", "/a/X", false, false), AssetMove::Missing));
    match optional_asset_move("/a/X/x-poster.jpg", "/a/X", true, true) {
        AssetMove::Kept(t) => assert_eq!(t, "/a/X/x-poster.jpg"),
        other => panic!("unexpected {:?}", other),
    }
}

#[test]
fn paths_follow_a_renamed_directory() {
    assert_eq!(remap_path_after_dir_rename("/lib/old/a.mp4", "/lib/old", "/lib/new"), "/lib/new/a.mp4");
    assert_eq!(remap_path_after_dir_rename("/lib/older/a.mp4", "/lib/old", "/lib/new"), "/lib/older/a.mp4");
    assert_eq!(remap_path_after_dir_rename("/lib/old", "/lib/old", "/lib/new"), "/lib/new/");
}

#[test]
fn named_directory_move_is_done_once() {
    let (dir, video, group) = named_parent_target("/lib/05/ABC-123.mp4").unwrap().unwrap();
    assert_eq!(dir, "/lib/05/ABC-123");
    assert_eq!(video, "/lib/05/ABC-123/ABC-123.mp4");
    assert!(group.is_none());
    assert!(named_parent_target(&video).unwrap().is_none());

    let (gdir, gvideo, g) = named_parent_target("/lib/05/fc2-780185-1.mp4").unwrap().unwrap();
    assert_eq!(gdir, "/lib/05/fc2-780185");
    assert_eq!(gvideo, "/lib/05/fc2-780185/fc2-780185-1.mp4");
    assert_eq!(g.as_deref(), Some("fc2-780185"));
    assert!(named_parent_target(&gvideo).unwrap().is_none());
}

#[test]
fn title_rename_plan() {
    let facts = RenameFacts {
        video_exists: true,
        nfo_exists: true,
        extrafanart_is_dir: false,
        poster_source: Some("/lib/ABC-123/ABC-123-poster.jpg".into()),
        thumb_source: None,
        fanart_source: None,
        dir_entries: vec![
            "/lib/ABC-123/ABC-123.mp4".into(),
            "/lib/ABC-123/ABC-123.zh.srt".into(),
            "/lib/ABC-123/other.srt".into(),
        ],
        case_insensitive: false,
    };
    let plan = rename_video_assets_with_title("/lib/ABC-123/ABC-123.mp4", "新标题", None, None, None, &facts)
        .unwrap()
        .unwrap();
    let ops: Vec<(String, String, bool)> =
        plan.operations.iter().map(|o| (o.source.clone(), o.target.clone(), o.is_dir)).collect();
    assert_eq!(
        ops,
        vec![
            ("/lib/ABC-123".to_string(), "/lib/新标题".to_string(), true),
            ("/lib/新标题/ABC-123.mp4".to_string(), "/lib/新标题/新标题.mp4".to_string(), false),
            ("/lib/新标题/ABC-123.nfo".to_string(), "/lib/新标题/新标题.nfo".to_string(), false),
            ("/lib/新标题/ABC-123-poster.jpg".to_string(), "/lib/新标题/新标题-poster.jpg".to_string(), false),
            ("/lib/新标题/ABC-123.zh.srt".to_string(), "/lib/新标题/新标题.zh.srt".to_string(), false),
        ]
    );
    assert_eq!(plan.assets.video_path, "/lib/新标题/新标题.mp4");
    assert_eq!(plan.assets.dir_path, "/lib/新标题");
    assert_eq!(plan.assets.poster.as_deref(), Some("/lib/新标题/新标题-poster.jpg"));

    let part = rename_video_assets_with_title("/lib/FC2-780185-1.mp4", "标题", None, None, None, &facts).unwrap();
    assert!(part.is_none());
    let missing = RenameFacts { video_exists: false, ..facts.clone() };
    assert_eq!(
        rename_video_assets_with_title("/lib/ABC-123/ABC-123.mp4", "标题", None, None, None, &missing).unwrap_err(),
        "源视频文件不存在"
    );
}

#[test]
fn ad_filter_keeps_its_default_keyword() {
    let mut f = AdFilterSettings { keywords: vec![" 广告 ".into(), "广告".into()], exclude_keywords: vec!["a".into(), "A".into()] };
    normalize_ad_filter_settings(&mut f);
    assert_eq!(f.keywords, vec!["广告", "全網網黃國"]);
    assert_eq!(f.exclude_keywords, vec!["a"]);
    let mut d = AdFilterSettings::default();
    normalize_ad_filter_settings(&mut d);
    assert_eq!(d.keywords, vec!["全網網黃國"]);
}

#[test]
fn logic_after_outside_calls_on_given_values() {
    let wxh = Some(vec![Some("1280x720".to_string()), Some("1280".to_string()), Some("720".to_string())]);
    assert_eq!(resolution_from_captures(&wxh, &None), (1280, 720));
    let p = Some(vec![Some("480p".to_string()), Some("480".to_string())]);
    assert_eq!(resolution_from_captures(&None, &p), (0, 480));
    assert_eq!(resolution_from_captures(&None, &None), (0, 0));
    let bad = Some(vec![Some("x".to_string()), None, Some("99999999999".to_string())]);
    assert_eq!(resolution_from_captures(&bad, &None), (0, 0));

    assert_eq!(file_name_from_segments(&Some(vec!["a".into(), "v.mp4".into()])).as_deref(), Some("v.mp4"));
    assert!(file_name_from_segments(&Some(vec!["a".into(), "".into()])).is_none());
    assert!(file_name_from_segments(&None).is_none());

    assert_eq!(with_page_scheme("//cdn/a.jpg", &Some("http".into())), "http://cdn/a.jpg");
    assert_eq!(with_page_scheme("//cdn/a.jpg", &None), "https://cdn/a.jpg");
    assert_eq!(resolved_or_kept("a.jpg", &Some("https://s/a.jpg".into())), "https://s/a.jpg");
    assert_eq!(resolved_or_kept("a.jpg", &None), "a.jpg");
}

#[test]
fn offered_sites_most_successful_first() {
    let src = |id: &str, enabled: bool, n: u32| DownloadSource {
        id: id.to_string(),
        name: id.to_uppercase(),
        url_template: format!("https://{id}/{{code}}"),
        enabled,
        success_count: n,
    };
    let sources = vec![src("a", true, 1), src("b", false, 9), src("c", true, 5), src("d", true, 1)];
    let sites = offered_video_sites(&sources);
    let ids: Vec<String> = sites.iter().map(|s| s.id.clone()).collect();
    assert_eq!(ids, vec!["c", "a", "d"]);
    assert_eq!(sites[0].url_template, "https://c/{code}");
    assert_eq!(sites[0].name, "C");
}

#[test]
fn scrape_update_of_a_record() {
    let meta = ScrapeMetadata {
        title: "标题".into(),
        local_id: "FC2-123456".into(),
        studio: "S".into(),
        duration: Some(120),
        is_uncensored: false,
        ..Default::default()
    };
    let art = ArtworkResult { poster: Some("/m/p.jpg".into()), fanart: None, thumb: None };
    let u = video_scrape_update(&meta, &art, None, cover_dimensions(800, 538), true);
    assert_eq!(u.title, "标题");
    assert_eq!(u.duration, Some(7200));
    assert!(u.is_uncensored);
    assert_eq!(u.poster.as_deref(), Some("/m/p.jpg"));
    assert_eq!((u.cover_width, u.cover_height), (Some(800), Some(538)));
    assert!(u.subtitle_saved);
    let kept = video_scrape_update(&meta, &art, Some(5400), cover_dimensions(0, 538), false);
    assert_eq!(kept.duration, Some(5400));
    assert_eq!((kept.cover_width, kept.cover_height), (None, None));

    let avatars = vec![
        ActorAvatar { name: "a".into(), avatar_url: "".into(), star_code: "".into() },
        ActorAvatar { name: "b".into(), avatar_url: "http://x/b.jpg".into(), star_code: "".into() },
        ActorAvatar { name: "c".into(), avatar_url: "".into(), star_code: "c1".into() },
    ];
    let names: Vec<String> = avatars_to_record(&avatars).iter().map(|a| a.name.clone()).collect();
    assert_eq!(names, vec!["b", "c"]);
}

#[test]
fn previews_to_download_are_numbered_files() {
    let images = vec![(1usize, " u1 ".to_string()), (2, "  ".to_string()), (12, "u12".to_string())];
    let plan = preview_download_plan("/m", &images);
    assert_eq!(
        plan,
        vec![
            (1usize, "u1".to_string(), "/m/extrafanart/fanart1.jpg".to_string()),
            (12, "u12".to_string(), "/m/extrafanart/fanart12.jpg".to_string()),
        ]
    );
}

#[test]
fn api_fetch_carries_code_and_spellings() {
    let f = Avsox.fetch_via_api("smbd-050").unwrap();
    assert_eq!(f.code, "smbd-050");
    assert_eq!(f.queries, vec!["SMBD-050", "SMBD-50"]);
}

#[test]
fn movie_id_comes_from_first_loose_match() {
    let entries = vec![
        (Some("SMBD-051".to_string()), Some("a".to_string())),
        (None, Some("b".to_string())),
        (Some("smbd-50".to_string()), Some("c".to_string())),
        (Some("SMBD-050".to_string()), Some("d".to_string())),
    ];
    assert_eq!(pick_movie_id(&entries, "SMBD-050"), Some("c".to_string()));
    let no_id = vec![(Some("SMBD-050".to_string()), None), (Some("SMBD-050".to_string()), Some("x".to_string()))];
    assert_eq!(pick_movie_id(&no_id, "SMBD-050"), None);
    assert_eq!(pick_movie_id(&entries, "ABC-001"), None);
}

#[test]
fn rename_plan_follows_task_state() {
    assert_eq!(plan_rename(6, Some("a.mp4"), "  ", "b.mp4"), Err("文件名不能为空".to_string()));
    assert_eq!(plan_rename(6, Some("b.mp4"), "b.mp4", "b.mp4"), Ok(TaskEditPlan::Unchanged));
    assert_eq!(plan_rename(6, Some("a.mp4"), "b.mp4", "b.mp4"), Ok(TaskEditPlan::RenameCompletedFiles));
    assert_eq!(plan_rename(2, Some("a.mp4"), "b.mp4", "b.mp4"), Ok(TaskEditPlan::RestartWithChange));
    assert_eq!(plan_rename(3, None, "b", "b"), Ok(TaskEditPlan::RestartWithChange));
    assert_eq!(plan_rename(7, None, "b", "b"), Ok(TaskEditPlan::RestartWithChange));
    assert_eq!(plan_rename(0, Some("a"), "b", "b"), Ok(TaskEditPlan::UpdateRecord));
    assert_eq!(plan_rename(5, None, "b", "b"), Ok(TaskEditPlan::UpdateRecord));
}

#[test]
fn save_path_plan_refuses_completed_tasks() {
    assert_eq!(plan_save_path_change(0, "/a", " "), Err("保存路径不能为空".to_string()));
    assert_eq!(plan_save_path_change(6, "/a", "/a"), Ok(TaskEditPlan::Unchanged));
    assert_eq!(plan_save_path_change(6, "/a", "/b"), Err("已完成的任务无法修改保存路径".to_string()));
    assert_eq!(plan_save_path_change(2, "/a", "/b"), Ok(TaskEditPlan::RestartWithChange));
    assert_eq!(plan_save_path_change(4, "/a", "/b"), Ok(TaskEditPlan::UpdateRecord));
}

#[test]
fn retry_and_delete_decisions() {
    assert!(retry_stops_process(1) && retry_stops_process(2) && retry_stops_process(3));
    assert!(!retry_stops_process(0) && !retry_stops_process(7));
    assert_eq!(work_dir_name(Some("  movie  ")), Some("movie".to_string()));
    assert_eq!(work_dir_name(Some("   ")), None);
    assert_eq!(work_dir_name(None), None);
    assert_eq!(work_dir_to_clear_on_delete(2, Some(" x ")), Some("x".to_string()));
    assert_eq!(work_dir_to_clear_on_delete(6, Some("x")), None);
}

#[test]
fn scrape_queue_concurrency_is_clamped() {
    assert_eq!(queue_concurrency(0), 1);
    assert_eq!(queue_concurrency(1), 1);
    assert_eq!(queue_concurrency(4), 4);
    assert_eq!(queue_concurrency(10), 10);
    assert_eq!(queue_concurrency(50), 10);
}

#[test]
fn stopped_runs_go_back_to_waiting() {
    assert_eq!(failed_run_outcome("Queue stopped"), FailedRunOutcome::BackToWaiting);
    assert_eq!(failed_run_outcome("Task stopped"), FailedRunOutcome::BackToWaiting);
    assert_eq!(failed_run_outcome("未找到该番号的信息: ABC-123"), FailedRunOutcome::Failed);
}

#[test]
fn folder_scrape_skips_queued_and_finished_videos() {
    let s = |v: &[&str]| v.iter().map(|x| x.to_string()).collect::<Vec<String>>();
    let files = s(&["/v/a.mp4", "/v/b.mp4", "/v/c.mp4", "/v/d.mp4"]);
    let has_nfo = vec![false, true, false, true];
    let active = s(&["/v/a.mp4"]);
    let scraped = s(&["/v/b.mp4", "/v/c.mp4"]);
    assert_eq!(files_to_queue(&files, &has_nfo, &active, &scraped), s(&["/v/c.mp4", "/v/d.mp4"]));
}

#[test]
fn windows_paths_split_at_backslash() {
    let (dir, video, _) = named_parent_target("D:\\lib\\ABC-123.mp4").unwrap().unwrap();
    assert_eq!(dir, "D:\\lib\\ABC-123");
    assert_eq!(video, "D:\\lib\\ABC-123\\ABC-123.mp4");
    assert!(named_parent_target(&video).unwrap().is_none());
    assert_eq!(remap_path_after_dir_rename("D:\\lib\\old\\a.jpg", "D:\\lib\\old", "D:\\lib\\new"), "D:\\lib\\new\\a.jpg");
    assert_eq!(remap_path_after_dir_rename("/lib/old/a.jpg", "/lib/old", "/lib/new"), "/lib/new/a.jpg");
    let (d, _, _) = named_parent_target("D:\\ABC-123.mp4").unwrap().unwrap();
    assert_eq!(d, "D:\\ABC-123");
}

#[test]
fn rename_run_stops_on_existing_target_and_undoes_in_reverse() {
    let op = |s: &str, t: &str, d: bool| PendingRenameOperation { source: s.to_string(), target: t.to_string(), is_dir: d };
    let ops = vec![
        op("/d/SSIS-001.mp4", "/d/Title/Title.mp4", false),
        op("/d/SSIS-001.nfo", "/d/Title/Title.nfo", false),
    ];
    assert!(check_rename_target(&ops[0], false, false).is_ok());
    assert!(check_rename_target(&op("/d/a.mp4", "/d/A.mp4", false), true, true).is_ok());
    let err = check_rename_target(&ops[1], true, false).unwrap_err();
    assert_eq!(err, "目标已存在，无法重命名: /d/Title/Title.nfo");
    let (e, undo) = stop_rename_run(&ops, 1, err);
    assert_eq!(e, "目标已存在，无法重命名: /d/Title/Title.nfo");
    assert_eq!(undo.len(), 1);
    assert_eq!(undo[0].source, "/d/Title/Title.mp4");
    assert_eq!(undo[0].target, "/d/SSIS-001.mp4");
    let (_, all) = stop_rename_run(&ops, 2, String::new());
    assert_eq!(all[0].source, "/d/Title/Title.nfo");
    assert_eq!(all[1].target, "/d/SSIS-001.mp4");
    assert_eq!(rename_failure_message(&ops[0], "busy"), "重命名失败: /d/SSIS-001.mp4 -> /d/Title/Title.mp4: busy");
}

#[test]
fn written_independent_dir_is_found_again() {
    let cfg = MetadataStorageConfig { independent: true, root_dir: "D:\\meta".to_string() };
    let t = javm::storage::resolve_asset_target("E:\\v\\raw.mp4", " abc-123 ", "A  title.", &cfg).unwrap();
    assert_eq!(t.dir, "D:\\meta\\abc-123 A title");
    assert_eq!(t.stem, "abc-123");
    let name = t.dir.rsplit('\\').next().unwrap().to_string();
    let entries = vec![
        RootEntry { name: "abc-123 other".to_string(), is_dir: true, has_strm: false },
        RootEntry { name, is_dir: true, has_strm: true },
    ];
    let (dir, stem) = resolve_existing_asset_dir("F:\\elsewhere\\x.mkv", " abc-123 ", &cfg, &entries);
    assert_eq!((dir, stem), (t.dir.clone(), t.stem.clone()));
}

#[test]
fn ad_filter_normalising_twice_changes_nothing() {
    let mut f = AdFilterSettings { keywords: vec![" A ".into(), "a".into(), "".into()], exclude_keywords: vec!["x ".into(), "X".into()] };
    normalize_ad_filter_settings(&mut f);
    let once = f.clone();
    normalize_ad_filter_settings(&mut f);
    assert_eq!(f.keywords, once.keywords);
    assert_eq!(f.exclude_keywords, once.exclude_keywords);
    assert_eq!(f.keywords, vec!["A", "全網網黃國"]);
}

#[test]
fn named_dir_move_decisions_per_file() {
    let none: Vec<bool> = vec![];
    assert_eq!(pick_asset_source("/l/ABC-1.mp4", Some("/l/p.jpg"), true, "poster", &none).as_deref(), Some("/l/p.jpg"));
    assert_eq!(pick_asset_source("/l/ABC-1.mp4", Some("/x/p.jpg"), true, "poster", &none), None);
    let cands = javm::assets::sibling_artwork_candidates("/l/ABC-1.mp4", "poster");
    let mut exists = vec![false; cands.len()];
    exists[1] = true;
    assert_eq!(pick_asset_source("/l/ABC-1.mp4", None, false, "poster", &exists), Some(cands[1].clone()));
    assert_eq!(
        stack_sibling_target("/l/FC2-780185-2.mp4", true, true, "/l/FC2-780185-1.mp4", "FC2-780185", "/l/FC2-780185").as_deref(),
        Some("/l/FC2-780185/FC2-780185-2.mp4")
    );
    assert_eq!(stack_sibling_target("/l/FC2-780185-1.mp4", true, true, "/l/FC2-780185-1.mp4", "FC2-780185", "/l/g"), None);
    assert_eq!(stack_sibling_target("/l/OTHER-001.mp4", true, true, "/l/FC2-780185-1.mp4", "FC2-780185", "/l/g"), None);
    assert_eq!(stack_sibling_target("/l/FC2-780185-2.srt", true, false, "/l/FC2-780185-1.mp4", "FC2-780185", "/l/g"), None);
    assert_eq!(named_dir_conflict("/l/A/A.mp4", true).as_deref(), Some("目标目录已存在同名视频文件: /l/A/A.mp4"));
    assert_eq!(named_dir_conflict("/l/A/A.mp4", false), None);
}

#[test]
fn end_of_download_run() {
    assert_eq!(final_byte_count(10, 99), 10);
    assert_eq!(final_byte_count(0, 99), 99);
    assert!(enters_merge_stage("Muxing to x.mp4", false));
    assert!(!enters_merge_stage("Muxing to x.mp4", true));
    assert!(!enters_merge_stage("Vid 1080p 50%", false));
    assert_eq!(exit_failure_message("  \u{1b}[31mboom\u{1b}[0m \n", Some(1)), "下载器退出失败: boom");
    assert_eq!(exit_failure_message("   ", Some(-2)), "下载器退出失败，exit_code=Some(-2)");
    assert_eq!(exit_failure_message("", None), "下载器退出失败，exit_code=None");
    let long = "x".repeat(3000);
    assert_eq!(exit_failure_message(&long, Some(1)), format!("下载器退出失败: {}", "x".repeat(2000)));
}

#[test]
fn scrape_results_written_step_by_step() {
    assert_eq!(media_location(&None, "D:\\v\\ABC-1.mp4"), ("D:\\v".to_string(), "ABC-1".to_string()));
    let produced = ArtworkResult { poster: None, fanart: Some("f.jpg".into()), thumb: None };
    let old = ArtworkResult { poster: Some("old.jpg".into()), fanart: None, thumb: None };
    let (kept, made) = artwork_to_keep(produced, old.clone());
    assert!(made);
    assert_eq!(kept.fanart.as_deref(), Some("f.jpg"));
    let (kept, made) = artwork_to_keep(ArtworkResult::default(), old);
    assert!(!made);
    assert_eq!(kept.poster.as_deref(), Some("old.jpg"));
    let items = preview_items(&vec!["a".to_string(), "b".to_string()]);
    assert_eq!(items, vec![(1, "a".to_string()), (2, "b".to_string())]);
    assert!(wants_subtitle(true, " ABC-1 "));
    assert!(!wants_subtitle(true, "  "));
    assert!(!wants_subtitle(false, "ABC-1"));
    assert_eq!(step_error(MediaStep::Nfo, "denied"), "NFO 生成失败: denied");
    let outcome = MediaWriteOutcome {
        artwork: ArtworkResult::default(),
        cover_produced: true,
        nfo_saved: false,
        subtitle_saved: false,
        errors: vec![step_error(MediaStep::Previews, "timeout")],
    };
    let r = scrape_save_result(&outcome, Some("locked"));
    assert!(r.cover_saved && !r.nfo_saved && !r.db_updated);
    assert_eq!(r.errors, vec!["预览图下载失败: timeout".to_string(), "数据库更新失败: locked".to_string()]);
    assert!(scrape_save_result(&outcome, None).db_updated);
}

#[test]
fn event_names_are_numbered_in_turn() {
    let mut c = EventCounter::new();
    assert_eq!(c.next_name("cf-probe"), "cf-probe-1");
    assert_eq!(c.next_name("html"), "html-2");
    let mut last = EventCounter { next: u64::MAX };
    assert_eq!(last.next_name("x"), format!("x-{}", u64::MAX));
    assert_eq!(last.next, 0);
}

#[test]
fn facet_source_is_located_by_a_work() {
    assert_eq!(lane_for_code("SSIS-001"), Lane::Censored);
    assert_eq!(lane_for_code("110615-001"), Lane::Uncensored);
    assert_eq!(work_detail_url("SSIS-001"), "https://www.javbus.com/SSIS-001");
    assert!(caches_source_id(Lane::Censored));
    assert!(!caches_source_id(Lane::Uncensored));
}

#[test]
fn intercept_script_quotes_the_failure_rule() {
    let js = build_intercept_script("missav", "div.err", "say \"no\"");
    assert!(js.contains("var __FAIL_SEL__ = \"div.err\";"));
    assert!(js.contains("var __FAIL_TEXT__ = \"say \\\"no\\\"\";"));
    assert!(!js.contains("__VIDEO_FINDER_FAIL_SEL__"));
    assert!(!js.contains("__VIDEO_FINDER_SITE__"));
    assert_eq!(finder_window_script("a", "b"), "a\nb");
}
