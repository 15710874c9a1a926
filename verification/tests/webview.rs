use javm::webview::{build_anti_detection_script, WEBVIEW_BROWSER_ARGS};

#[test]
fn anti_detection_script_covers_high_signal_fingerprints() {
    let script = build_anti_detection_script();
    for expected in [
        "navigator.userAgentData",
        "'mimeTypes'",
        "'hardwareConcurrency'",
        "'deviceMemory'",
        "'platform'",
        "'vendor'",
        "window.chrome.loadTimes",
        "window.chrome.csi",
        "'pdfViewerEnabled'",
    ] {
        assert!(script.contains(expected), "脚本缺少关键伪装: {expected}");
    }
}

#[test]
fn browser_args_disable_additional_webview2_signals() {
    assert!(WEBVIEW_BROWSER_ARGS.contains("AutomationControlled"));
    assert!(WEBVIEW_BROWSER_ARGS.contains("CalculateNativeWinOcclusion"));
    assert!(WEBVIEW_BROWSER_ARGS.contains("disable-renderer-backgrounding"));
    assert!(WEBVIEW_BROWSER_ARGS.contains("disable-background-timer-throttling"));
}
