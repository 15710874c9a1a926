//! Scripts and settings of the scraping WebView windows: the anti-automation
//! script injected before page scripts, the Cloudflare probe and HTML
//! extraction scripts, and the event names they report under.

use vstd::prelude::*;
use crate::text::{chars_of, concat, decimal, decimal_chars, owned, string_of};

verus! {

/// User agent of the WebView, in step with the HTTP client.
pub const WEBVIEW_USER_AGENT: &'static str = "Mozilla/5.0 (Windows NT 10.0; Win64; x64) AppleWebKit/537.36 (KHTML, like Gecko) Chrome/134.0.0.0 Safari/537.36";

/// Extra WebView2 start arguments that switch off automation signals.
pub const WEBVIEW_BROWSER_ARGS: &'static str = "--disable-blink-features=AutomationControlled --disable-features=msWebView2BrowserHitTransparent,CalculateNativeWinOcclusion --disable-renderer-backgrounding --disable-background-timer-throttling";

/// State of the Cloudflare check of the scraping windows, for the front end.
#[derive(Debug, Clone)]
pub struct CfStatePayload {
    pub status: &'static str,
    pub active: bool,
    pub site_id: Option<String>,
    pub active_count: usize,
}

/// What `format!("{:?}", s)` writes for a text: the text quoted, with Rust's
/// debug escapes.
pub uninterp spec fn debug_quoted(s: Seq<char>) -> Seq<char>;

/// `<str as Debug>::fmt` through `format!("{:?}", ..)`. The result is named
/// (`debug_quoted`), a function of the text alone.
#[verifier::external_body]
fn debug_quote(s: &str) -> (r: String)
    ensures
        r@ == debug_quoted(s@),
{
    format!("{:?}", s)
}

/// An event name unique in the process: the prefix, `-`, and the number the
/// caller's counter handed out.
pub fn next_event_name(prefix: &str, id: u64) -> (r: String)
    ensures
        r@ == prefix@ + seq!['-'] + decimal(id as nat),
{
    let p = chars_of(prefix);
    let mut dash: Vec<char> = Vec::new();
    dash.push('-');
    assert(dash@ =~= seq!['-']);
    let a = concat(&p, &dash);
    let d = decimal_chars(id);
    let r = concat(&a, &d);
    string_of(&r)
}

/// The counter that event names are numbered by; one lives for the whole
/// process and counts up from 1, wrapping around past `u64::MAX`.
#[derive(Debug)]
pub struct EventCounter {
    pub next: u64,
}

impl EventCounter {
    pub fn new() -> (r: Self)
        ensures
            r.next == 1,
    {
        EventCounter { next: 1 }
    }

    /// The next event name for `prefix`: numbered with the current count,
    /// which then moves on by one.
    pub fn next_name(&mut self, prefix: &str) -> (r: String)
        ensures
            r@ == prefix@ + seq!['-'] + decimal(old(self).next as nat),
            final(self).next == (if old(self).next == u64::MAX {
                0
            } else {
                (old(self).next + 1) as u64
            }),
    {
        let id = self.next;
        self.next = if id == u64::MAX {
            0
        } else {
            id + 1
        };
        next_event_name(prefix, id)
    }
}

pub const CF_PROBE_HEAD: &'static str = r#"
            (function() {
                try {
                    "#;
pub const CF_PROBE_MIDDLE: &'static str = r#"
                    var detected = __javmDetectCloudflareChallenge();
                    window.__CF_CHALLENGE_ACTIVE__ = detected;
                    if (window.__TAURI__ && window.__TAURI__.event) {
                        window.__TAURI__.event.emit("#;
pub const CF_PROBE_TAIL: &'static str = r#", detected);
                    }
                } catch (e) {}
            })();
        "#;

/// The script that runs the Cloudflare challenge detector `detector` (the text
/// of a JavaScript function `__javmDetectCloudflareChallenge`) in the page and
/// reports the verdict under `event_name`.
pub fn build_cf_probe_script(event_name: &str, detector: &str) -> (r: String)
    ensures
        r@ == CF_PROBE_HEAD@ + detector@ + CF_PROBE_MIDDLE@ + debug_quoted(event_name@)
            + CF_PROBE_TAIL@,
{
    let a = chars_of(CF_PROBE_HEAD);
    let b = chars_of(detector);
    let c = chars_of(CF_PROBE_MIDDLE);
    let q = debug_quote(event_name);
    let d = chars_of(q.as_str());
    let e = chars_of(CF_PROBE_TAIL);
    let ab = concat(&a, &b);
    let abc = concat(&ab, &c);
    let abcd = concat(&abc, &d);
    let r = concat(&abcd, &e);
    string_of(&r)
}

pub const HTML_EXTRACT_HEAD: &'static str = r#"
            (function() {
                try {
                    if (document.readyState !== 'complete') return;
                    if (!document.body || document.body.innerHTML.length < 100) return;

                    "#;
pub const HTML_EXTRACT_DETECT: &'static str = r#"
                    var html = document.documentElement ? document.documentElement.outerHTML : '';
                    var detected = __javmDetectCloudflareChallenge();

                    if (window.__TAURI__ && window.__TAURI__.event) {
                        window.__TAURI__.event.emit("#;
pub const HTML_EXTRACT_HTML: &'static str = r#", detected);
                        if (!detected) {
                            window.__TAURI__.event.emit(
                                "#;
pub const HTML_EXTRACT_TAIL: &'static str = r#",
                                html
                            );
                        }
                    }
                } catch (e) {}
            })();
        "#;

/// The script that, once the page is complete and not empty, reports the
/// Cloudflare verdict under `cf_event_name` and, when there is no challenge,
/// the page HTML under `html_event_name`.
pub fn build_html_extract_script(cf_event_name: &str, html_event_name: &str, detector: &str) -> (r: String)
    ensures
        r@ == HTML_EXTRACT_HEAD@ + detector@ + HTML_EXTRACT_DETECT@ + debug_quoted(cf_event_name@)
            + HTML_EXTRACT_HTML@ + debug_quoted(html_event_name@) + HTML_EXTRACT_TAIL@,
{
    let a = chars_of(HTML_EXTRACT_HEAD);
    let b = chars_of(detector);
    let c = chars_of(HTML_EXTRACT_DETECT);
    let q1 = debug_quote(cf_event_name);
    let d = chars_of(q1.as_str());
    let e = chars_of(HTML_EXTRACT_HTML);
    let q2 = debug_quote(html_event_name);
    let f = chars_of(q2.as_str());
    let g = chars_of(HTML_EXTRACT_TAIL);
    let r1 = concat(&a, &b);
    let r2 = concat(&r1, &c);
    let r3 = concat(&r2, &d);
    let r4 = concat(&r3, &e);
    let r5 = concat(&r4, &f);
    let r = concat(&r5, &g);
    string_of(&r)
}

/// The anti-automation script, injected before any script of the page:
/// hides `navigator.webdriver` and driver traces, and gives the navigator,
/// plugins, MIME types, `window.chrome` and the network information the shape
/// of a regular Chrome.
pub const ANTI_DETECTION_SCRIPT: &'static str = r#"
        (function() {
            'use strict';

            var navProto = Object.getPrototypeOf(navigator);

            function defineGetter(target, key, getter) {
                try {
                    Object.defineProperty(target, key, {
                        get: getter,
                        configurable: true,
                    });
                } catch (e) {}
            }

            function patchGetter(target, key, getter) {
                if (!target) return;
                defineGetter(target, key, getter);
            }

            function makeNativeLike(fn, name) {
                try {
                    Object.defineProperty(fn, 'name', { value: name, configurable: true });
                } catch (e) {}
                try {
                    Object.defineProperty(fn, 'toString', {
                        value: function() { return 'function ' + name + '() { [native code] }'; },
                        configurable: true,
                    });
                } catch (e) {}
                return fn;
            }

            function createMimeType(type, suffixes, description, enabledPlugin) {
                return {
                    type: type,
                    suffixes: suffixes,
                    description: description,
                    enabledPlugin: enabledPlugin,
                };
            }

            function attachIndexedAccess(collection, items, keyField) {
                for (var i = 0; i < items.length; i++) {
                    collection[i] = items[i];
                    if (keyField && items[i] && items[i][keyField]) {
                        collection[items[i][keyField]] = items[i];
                    }
                }
                collection.length = items.length;
                return collection;
            }

            // ── 1. 隐藏 navigator.webdriver ──
            patchGetter(navProto, 'webdriver', function() { return undefined; });
            patchGetter(navigator, 'webdriver', function() { return undefined; });

            // ── 2. 伪造 navigator.userAgentData（Client Hints，CF 重点检测） ──
            if (!navigator.userAgentData || /WebView/i.test(JSON.stringify(navigator.userAgentData.brands || []))) {
                var fakeUAData = {
                    brands: [
                        { brand: 'Chromium', version: '134' },
                        { brand: 'Google Chrome', version: '134' },
                        { brand: 'Not:A-Brand', version: '24' }
                    ],
                    mobile: false,
                    platform: 'Windows',
                    getHighEntropyValues: function(hints) {
                        return Promise.resolve({
                            brands: this.brands,
                            mobile: false,
                            platform: 'Windows',
                            platformVersion: '15.0.0',
                            architecture: 'x86',
                            bitness: '64',
                            model: '',
                            uaFullVersion: '134.0.6998.89',
                            fullVersionList: this.brands
                        });
                    }
                };
                Object.defineProperty(navigator, 'userAgentData', {
                    get: function() { return fakeUAData; },
                    configurable: true,
                });
            }

            // ── 3. 伪造 navigator.plugins（需要模拟 PluginArray 接口） ──
            if (navigator.plugins.length === 0) {
                var fakePlugins = [
                    { name: 'PDF Viewer', filename: 'internal-pdf-viewer', description: 'Portable Document Format' },
                    { name: 'Chrome PDF Viewer', filename: 'internal-pdf-viewer', description: 'Portable Document Format' },
                    { name: 'Chromium PDF Viewer', filename: 'internal-pdf-viewer', description: 'Portable Document Format' },
                    { name: 'Microsoft Edge PDF Viewer', filename: 'internal-pdf-viewer', description: 'Portable Document Format' },
                    { name: 'WebKit built-in PDF', filename: 'internal-pdf-viewer', description: 'Portable Document Format' }
                ];
                var fakeMimeTypes = [
                    createMimeType('application/pdf', 'pdf', 'Portable Document Format', fakePlugins[0]),
                    createMimeType('text/pdf', 'pdf', 'Portable Document Format', fakePlugins[1])
                ];

                for (var pluginIndex = 0; pluginIndex < fakePlugins.length; pluginIndex++) {
                    fakePlugins[pluginIndex].length = fakeMimeTypes.length;
                    for (var mimeIndex = 0; mimeIndex < fakeMimeTypes.length; mimeIndex++) {
                        fakePlugins[pluginIndex][mimeIndex] = fakeMimeTypes[mimeIndex];
                    }
                }

                var pluginArray = attachIndexedAccess([], fakePlugins, 'name');
                pluginArray.item = makeNativeLike(function(i) { return this[i] || null; }, 'item');
                pluginArray.namedItem = makeNativeLike(function(n) {
                    return this[n] || null;
                }, 'namedItem');
                pluginArray.refresh = makeNativeLike(function() {}, 'refresh');

                var mimeTypeArray = attachIndexedAccess([], fakeMimeTypes, 'type');
                mimeTypeArray.item = makeNativeLike(function(i) { return this[i] || null; }, 'item');
                mimeTypeArray.namedItem = makeNativeLike(function(n) {
                    return this[n] || null;
                }, 'namedItem');

                patchGetter(navProto, 'plugins', function() { return pluginArray; });
                Object.defineProperty(navigator, 'plugins', {
                    get: function() { return pluginArray; },
                    configurable: true,
                });
                patchGetter(navProto, 'mimeTypes', function() { return mimeTypeArray; });
                Object.defineProperty(navigator, 'mimeTypes', {
                    get: function() { return mimeTypeArray; },
                    configurable: true,
                });
            }

            // ── 4. 修正常见 Navigator 指纹 ──
            patchGetter(navProto, 'platform', function() { return 'Win32'; });
            patchGetter(navigator, 'platform', function() { return 'Win32'; });
            patchGetter(navProto, 'vendor', function() { return 'Google Inc.'; });
            patchGetter(navigator, 'vendor', function() { return 'Google Inc.'; });
            patchGetter(navProto, 'hardwareConcurrency', function() { return 8; });
            patchGetter(navigator, 'hardwareConcurrency', function() { return 8; });
            patchGetter(navProto, 'deviceMemory', function() { return 8; });
            patchGetter(navigator, 'deviceMemory', function() { return 8; });
            patchGetter(navProto, 'maxTouchPoints', function() { return 0; });
            patchGetter(navigator, 'maxTouchPoints', function() { return 0; });

            // ── 5. 确保 navigator.languages 正常 ──
            if (!navigator.languages || navigator.languages.length === 0) {
                patchGetter(navProto, 'languages', function() { return ['zh-CN', 'zh', 'en-US', 'en']; });
                Object.defineProperty(navigator, 'languages', {
                    get: function() { return ['zh-CN', 'zh', 'en-US', 'en']; },
                    configurable: true,
                });
            }

            // ── 6. 伪造 Notification 权限（WebView 通常缺失） ──
            if (typeof Notification === 'undefined') {
                window.Notification = function() {};
                window.Notification.permission = 'default';
                window.Notification.requestPermission = function() { return Promise.resolve('default'); };
            }

            // ── 7. 伪造 window.chrome 与子对象 ──
            if (!window.chrome) window.chrome = {};
            if (!window.chrome.runtime) {
                window.chrome.runtime = {
                    connect: makeNativeLike(function() {
                        return {
                            onMessage: { addListener: function() {} },
                            onDisconnect: { addListener: function() {} },
                            postMessage: function() {},
                            disconnect: function() {}
                        };
                    }, 'connect'),
                    sendMessage: makeNativeLike(function() {}, 'sendMessage'),
                    id: undefined
                };
            }
            if (!window.chrome.app) {
                window.chrome.app = {
                    isInstalled: false,
                    InstallState: { DISABLED: 'disabled', INSTALLED: 'installed', NOT_INSTALLED: 'not_installed' },
                    RunningState: { CANNOT_RUN: 'cannot_run', READY_TO_RUN: 'ready_to_run', RUNNING: 'running' },
                    getDetails: makeNativeLike(function() { return null; }, 'getDetails'),
                    getIsInstalled: makeNativeLike(function() { return false; }, 'getIsInstalled')
                };
            }
            if (!window.chrome.csi) {
                window.chrome.csi = makeNativeLike(function() {
                    return {
                        onloadT: Date.now(),
                        startE: Date.now() - 100,
                        pageT: Math.max(1, Math.round(performance.now())),
                        tran: 15
                    };
                }, 'csi');
            }
            if (!window.chrome.loadTimes) {
                window.chrome.loadTimes = makeNativeLike(function() {
                    return {
                        commitLoadTime: Date.now() / 1000,
                        connectionInfo: 'http/1.1',
                        finishDocumentLoadTime: Date.now() / 1000,
                        finishLoadTime: Date.now() / 1000,
                        firstPaintAfterLoadTime: 0,
                        firstPaintTime: Date.now() / 1000,
                        navigationType: 'Other',
                        npnNegotiatedProtocol: 'http/1.1',
                        requestTime: Date.now() / 1000,
                        startLoadTime: Date.now() / 1000,
                        wasAlternateProtocolAvailable: false,
                        wasFetchedViaSpdy: false,
                        wasNpnNegotiated: false
                    };
                }, 'loadTimes');
            }

            // ── 8. 移除 Chromium DevTools 协议残留属性 ──
            var cdcKeys = Object.getOwnPropertyNames(window).filter(function(k) {
                return /^cdc_/i.test(k) || /^\$cdc_/i.test(k);
            });
            cdcKeys.forEach(function(k) { try { delete window[k]; } catch(e) {} });

            // ── 9. 视口/屏幕尺寸：统一上报 ≥1920×1080 ──
            // 目的有二：①隐藏窗口可能 0×0 被 CF 检测；②很多视频站按 window.innerWidth/
            // screen.width 决定提供的最高清晰度，小屏/小窗口会被限制到 720p。这里把窗口与
            // 屏幕尺寸都"垫高"到至少 1080p（只升不降），让站点提供 1080p 变体。
            (function() {
                var TW = 1920, TH = 1080;
                function bump(obj, prop, target) {
                    try {
                        var cur = obj[prop] || 0;
                        if (cur < target) {
                            Object.defineProperty(obj, prop, { get: function() { return target; }, configurable: true });
                        }
                    } catch (e) {}
                }
                bump(window, 'innerWidth', TW);
                bump(window, 'innerHeight', TH);
                bump(window, 'outerWidth', TW);
                bump(window, 'outerHeight', TH);
                if (window.screen) {
                    bump(window.screen, 'width', TW);
                    bump(window.screen, 'height', TH);
                    bump(window.screen, 'availWidth', TW);
                    bump(window.screen, 'availHeight', TH);
                }
            })();

            // ── 10. 修正 permissions API 行为（更接近真实浏览器） ──
            if (navigator.permissions) {
                var origQuery = navigator.permissions.query.bind(navigator.permissions);
                navigator.permissions.query = makeNativeLike(function(desc) {
                    if (desc && desc.name === 'notifications') {
                        return Promise.resolve({ state: 'prompt', onchange: null });
                    }
                    if (desc && (desc.name === 'camera' || desc.name === 'microphone')) {
                        return Promise.resolve({ state: 'denied', onchange: null });
                    }
                    return origQuery(desc);
                }, 'query');
            }

            // ── 11. 规避权限与自动化 API 的缺省暴露 ──
            if (!window.navigator.connection) {
                Object.defineProperty(navigator, 'connection', {
                    get: function() {
                        return {
                            downlink: 10,
                            effectiveType: '4g',
                            onchange: null,
                            rtt: 50,
                            saveData: false,
                        };
                    },
                    configurable: true,
                });
            }
            if (!window.navigator.pdfViewerEnabled) {
                Object.defineProperty(navigator, 'pdfViewerEnabled', {
                    get: function() { return true; },
                    configurable: true,
                });
            }
        })();
    "#;

pub fn build_anti_detection_script() -> (r: String)
    ensures
        r@ == ANTI_DETECTION_SCRIPT@,
{
    owned(ANTI_DETECTION_SCRIPT)
}

} // verus!
