use javm::download::is_nm3u8dl_merging;

#[test]
fn test_is_nm3u8dl_merging() {
    assert!(is_nm3u8dl_merging("17:09:58.504 INFO : 调用ffmpeg合并中..."));
    assert!(is_nm3u8dl_merging("正在使用ffmpeg合并视频文件"));
    assert!(is_nm3u8dl_merging("Muxing video and audio streams..."));
    assert!(is_nm3u8dl_merging("Merging segments into final file"));
    assert!(is_nm3u8dl_merging("19:23:01.234 INFO : 二进制合并中..."));
    assert!(!is_nm3u8dl_merging("Vid Kbps ━━━━━━━━━━━━━━━━━━━━━━━━━━━━━━ 80/81 98.77%"));
    assert!(!is_nm3u8dl_merging("Download completed successfully"));
}
