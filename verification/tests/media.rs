use javm::artwork::{artwork_path, ArtworkResult, POSTER_SUFFIX};
use javm::assets::{is_stack_part_in_grouped_dir, is_stack_sibling, named_parent_target, rename_video_assets_with_title, RenameFacts};
use javm::storage::{
    build_independent_folder_name, resolve_asset_target, resolve_existing_asset_dir,
    sanitize_path_component, strm_write_needed, sync_independent_strm, MetadataStorageConfig,
    RootEntry,
};
use javm::subtitle::{absolutize, extract_zh_subtitle_href, is_detail_link, normalize_id, pick_detail_links};

#[test]
fn artwork_path_uses_stem_and_suffix() {
    let p = artwork_path("/m/ABC-123 标题", "ABC-123", POSTER_SUFFIX);
    assert_eq!(p, "/m/ABC-123 标题/ABC-123-poster.jpg");
}

#[test]
fn primary_dimension_path_prefers_fanart() {
    let art = ArtworkResult {
        poster: Some("p.jpg".into()),
        fanart: Some("f.jpg".into()),
        thumb: Some("t.jpg".into()),
    };
    assert_eq!(art.primary_dimension_path(), Some("f.jpg"));

    let art2 = ArtworkResult { poster: Some("p.jpg".into()), fanart: None, thumb: None };
    assert_eq!(art2.primary_dimension_path(), Some("p.jpg"));
}

#[test]
fn stack_part_in_grouped_dir_is_not_relocated() {
    assert!(is_stack_part_in_grouped_dir("/lib/05/SIVR-015-1/SIVR-015-2.mp4"));
    assert!(is_stack_part_in_grouped_dir("/lib/05/SIVR-015/SIVR-015-2.mp4"));
    assert!(is_stack_part_in_grouped_dir("/lib/03/STARS-818-01/STARS-818-02.mp4"));
    assert!(!is_stack_part_in_grouped_dir("/lib/05/SIVR-015-2.mp4"));
    assert!(!is_stack_part_in_grouped_dir("/lib/05/SIVR-016-1/SIVR-015-2.mp4"));
    assert!(!is_stack_part_in_grouped_dir("/lib/05/SSIS-001/SSIS-002.mp4"));
}

#[test]
fn resolve_asset_target_follow_video_mode() {
    let cfg = MetadataStorageConfig { independent: false, root_dir: String::new() };
    let target = resolve_asset_target("/videos/ABC-123.mp4", "ABC-123", "标题", &cfg).unwrap();
    assert_eq!(target.dir, "/videos");
    assert_eq!(target.stem, "ABC-123");
    assert!(target.strm.is_none());
}

#[test]
fn resolve_asset_target_independent_mode() {
    let cfg = MetadataStorageConfig { independent: true, root_dir: "/meta".to_string() };
    let target = resolve_asset_target("/videos/raw_name.mp4", "ABC-123", "标题 X", &cfg).unwrap();
    assert_eq!(target.dir, "/meta/ABC-123 标题 X");
    assert_eq!(target.stem, "ABC-123");
    let strm = target.strm.expect("独立模式应生成 .strm");
    assert_eq!(strm.path, "/meta/ABC-123 标题 X/ABC-123.strm");
    assert_eq!(strm.video_abs_path, "/videos/raw_name.mp4");
}

#[test]
fn resolve_asset_target_independent_falls_back_without_root_or_id() {
    let cfg_no_root = MetadataStorageConfig { independent: true, root_dir: String::new() };
    let t1 = resolve_asset_target("/videos/ABC-123.mp4", "ABC-123", "标题", &cfg_no_root).unwrap();
    assert!(t1.strm.is_none());
    assert_eq!(t1.dir, "/videos");

    let cfg = MetadataStorageConfig { independent: true, root_dir: "/meta".to_string() };
    let t2 = resolve_asset_target("/videos/ABC-123.mp4", "  ", "标题", &cfg).unwrap();
    assert!(t2.strm.is_none());
    assert_eq!(t2.stem, "ABC-123");
}

#[test]
fn build_independent_folder_name_handles_empty_title() {
    assert_eq!(build_independent_folder_name("ABC-123", ""), "ABC-123");
    assert_eq!(build_independent_folder_name("ABC-123", "  "), "ABC-123");
    assert_eq!(build_independent_folder_name("ABC-123", "Hello"), "ABC-123 Hello");
}

#[test]
fn sanitize_path_component_replaces_illegal_chars_and_folds_space() {
    assert_eq!(sanitize_path_component("a/b:c*d?", "fallback"), "a_b_c_d_");
    assert_eq!(sanitize_path_component("   ", "fallback"), "fallback");
    assert_eq!(sanitize_path_component("a   b", "fb"), "a b");
}

#[test]
fn resolve_existing_asset_dir_falls_back_when_not_independent() {
    let cfg = MetadataStorageConfig { independent: false, root_dir: String::new() };
    let (dir, stem) = resolve_existing_asset_dir("/videos/ABC-123.mp4", "ABC-123", &cfg, &Vec::new());
    assert_eq!(dir, "/videos");
    assert_eq!(stem, "ABC-123");
}

#[test]
fn normalize_id_strips_separators_and_uppercases() {
    assert_eq!(normalize_id("ssis-001"), "SSIS001");
    assert_eq!(normalize_id("SSIS-001 eng"), "SSIS001ENG");
}

#[test]
fn is_detail_link_matches_subs_html_only() {
    assert!(is_detail_link("subs/252/SSIS-001.html"));
    assert!(is_detail_link("/subs/252/SSIS-001.html"));
    assert!(!is_detail_link("/./index.php"));
    assert!(!is_detail_link("//www.opensubtitles.org"));
    assert!(!is_detail_link("subs/252/SSIS-001-zh-CN.srt"));
}

#[test]
fn absolutize_handles_relative_and_absolute() {
    assert_eq!(absolutize("subs/252/x.html"), "https://www.subtitlecat.com/subs/252/x.html");
    assert_eq!(absolutize("/subs/253/x.srt"), "https://www.subtitlecat.com/subs/253/x.srt");
    assert_eq!(absolutize("https://x.com/a"), "https://x.com/a");
}

#[test]
fn pick_detail_links_filters_by_number_strictly() {
    let html = r#"
        <a href="/./index.php">Home</a>
        <a href="subs/252/SSIS-001.html">SSIS-001</a>
        <a href="subs/254/SSIS-001%20eng.html">SSIS-001 eng</a>
        <a href="subs/999/ABP-041.html">ABP-041</a>
    "#;
    let links = pick_detail_links(html, "SSIS-001");
    assert_eq!(links.len(), 2);
    assert!(links.iter().all(|l| l.contains("SSIS-001")));

    let fuzzy = pick_detail_links(html, "ABP-123");
    assert!(fuzzy.is_empty());
}

#[test]
fn extract_zh_subtitle_href_picks_simplified_only() {
    let html = r#"
        <a href="/subs/252/SSIS-001-zh-TW.srt" class="green-link">Download</a>
        <a href="/subs/253/SSIS-001-zh-CN.srt" class="green-link">Download</a>
        <a href="/subs/252/SSIS-001-en.srt" class="green-link">Download</a>
    "#;
    assert_eq!(extract_zh_subtitle_href(html).as_deref(), Some("/subs/253/SSIS-001-zh-CN.srt"));

    let no_zh = r#"<a href="/subs/252/SSIS-001-zh-TW.srt">Download</a>"#;
    assert!(extract_zh_subtitle_href(no_zh).is_none());
}

#[test]
fn stack_parts_relocate_together_into_group_dir() {
    let (dir, video, group) = named_parent_target("/lib/FC2-780185-1.mp4").unwrap().unwrap();
    assert_eq!(dir, "/lib/FC2-780185");
    assert_eq!(video, "/lib/FC2-780185/FC2-780185-1.mp4");
    let base = group.unwrap();
    assert_eq!(base, "FC2-780185");
    assert!(is_stack_sibling("FC2-780185-2", &base));
    assert!(is_stack_sibling("FC2-780185-3", &base));
    assert!(!is_stack_sibling("OTHER-001", &base));
    assert!(named_parent_target(&video).unwrap().is_none());
}

#[test]
fn single_video_still_relocates_into_named_dir() {
    let (dir, video, group) = named_parent_target("/root/SSIS-001.mp4").unwrap().unwrap();
    assert_eq!(dir, "/root/SSIS-001");
    assert_eq!(video, "/root/SSIS-001/SSIS-001.mp4");
    assert!(group.is_none());
}

#[test]
fn rename_with_title_skips_stack_part() {
    let facts = RenameFacts {
        video_exists: true,
        nfo_exists: false,
        extrafanart_is_dir: false,
        poster_source: None,
        thumb_source: None,
        fanart_source: None,
        dir_entries: vec!["/tmp/x/FC2-780185-1.mp4".to_string()],
        case_insensitive: false,
    };
    let result = rename_video_assets_with_title("/tmp/x/FC2-780185-1.mp4", "FC2-780185", None, None, None, &facts)
        .unwrap();
    assert!(result.is_none());
}

#[test]
fn sync_independent_strm_rewrites_matching_strm() {
    let entries = vec![RootEntry { name: "ABC-123 标题文字".to_string(), is_dir: true, has_strm: true }];
    let cfg = MetadataStorageConfig { independent: true, root_dir: "/tmp/root".to_string() };
    let spec = sync_independent_strm(&cfg, "ABC-123", "E:\\new\\ABC-123.mp4", &entries).unwrap();
    assert_eq!(spec.path, "/tmp/root/ABC-123 标题文字/ABC-123.strm");
    assert_eq!(spec.video_abs_path, "E:\\new\\ABC-123.mp4");
    assert_eq!(strm_write_needed(Some("D:\\old\\ABC-123.mp4"), &spec.video_abs_path).as_deref(), Some("E:\\new\\ABC-123.mp4"));
    let cfg_off = MetadataStorageConfig { independent: false, root_dir: "/tmp/root".to_string() };
    assert!(sync_independent_strm(&cfg_off, "ABC-123", "X", &entries).is_none());
}

#[test]
fn resolve_existing_asset_dir_locates_independent_dir() {
    let entries = vec![RootEntry { name: "ABC-123 标题文字".to_string(), is_dir: true, has_strm: true }];
    let cfg = MetadataStorageConfig { independent: true, root_dir: "/tmp/root".to_string() };
    let (dir, stem) = resolve_existing_asset_dir("D:\\v\\raw_name.mp4", "ABC-123", &cfg, &entries);
    assert_eq!(dir, "/tmp/root/ABC-123 标题文字");
    assert_eq!(stem, "ABC-123");
    let (dir2, stem2) = resolve_existing_asset_dir("D:\\v\\raw_name.mp4", "ZZZ-999", &cfg, &entries);
    assert_eq!(dir2, "D:\\v");
    assert_eq!(stem2, "raw_name");
}
