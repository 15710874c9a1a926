use javm::avsox::{rewrite_sample_url, same_code_loose, search_queries};
use javm::avsox_api::{movie_json_to_result, pick_movie_id, LocalizedName, MovieEntry, StarEntry};
use javm::scrape::{normalize_result_url, normalize_search_code, resolve_scraped_duration};
use javm::sources::{Av123, AvGood, Avsox, JavGuru, SourceCapability};

fn name(local: Option<&str>, ja: Option<&str>, en: Option<&str>) -> LocalizedName {
    LocalizedName {
        local: local.map(|s| s.to_string()),
        ja: ja.map(|s| s.to_string()),
        en: en.map(|s| s.to_string()),
    }
}

#[test]
fn search_code_inserts_missing_hyphen() {
    assert_eq!(normalize_search_code("ssis666"), "SSIS-666");
    assert_eq!(normalize_search_code("ssis-666"), "SSIS-666");
    assert_eq!(normalize_search_code("SSIS-666"), "SSIS-666");
    assert_eq!(normalize_search_code("  ssis666  "), "SSIS-666");
}

#[test]
fn search_code_preserves_special_forms() {
    assert_eq!(normalize_search_code("FC2-PPV-1234567"), "FC2-PPV-1234567");
    assert_eq!(normalize_search_code("390jac132"), "390JAC132");
    assert_eq!(normalize_search_code("390JAC-132"), "390JAC-132");
}

#[test]
fn normalize_result_url_resolves_relative_detail_link() {
    let resolved = normalize_result_url(
        "/jav/start-521-1-1.html",
        "https://jav.sb/vod/search.html?wd=start-521",
    );
    assert_eq!(resolved, "https://jav.sb/jav/start-521-1-1.html");
}

#[test]
fn normalize_result_url_keeps_absolute_detail_link() {
    let resolved = normalize_result_url(
        "https://jav.sb/jav/start-521-1-1.html",
        "https://jav.sb/vod/search.html?wd=start-521",
    );
    assert_eq!(resolved, "https://jav.sb/jav/start-521-1-1.html");
}

#[test]
fn resolve_scraped_duration_should_keep_existing_real_duration() {
    assert_eq!(resolve_scraped_duration(Some(5_400), Some(120)), Some(5_400));
}

#[test]
fn resolve_scraped_duration_should_fill_when_existing_is_empty() {
    assert_eq!(resolve_scraped_duration(None, Some(120)), Some(7_200));
    assert_eq!(resolve_scraped_duration(Some(0), Some(120)), Some(7_200));
}

#[test]
fn extract_detail_url_matches_code_link() {
    let search = r#"
      <a href="/c/s/?q=SNOS-373">搜索</a>
      <a href="/c/t/23/">单体作品</a>
      <a href="/c/669912.html" target="_blank"> <em>SNOS</em>-<em>373</em> 测试标题 </a>
    "#;
    let url = AvGood.extract_detail_url(search, "SNOS-373").unwrap();
    assert_eq!(url, "https://avgood.com/c/669912.html");
}

#[test]
fn extract_detail_url_none_when_no_match() {
    let search = r#"<a href="/c/669912.html">ABC-001 其他影片</a>"#;
    assert!(AvGood.extract_detail_url(search, "SNOS-373").is_none());
}

#[test]
fn capability_is_uncensored_only() {
    assert_eq!(Avsox.capability(), SourceCapability::UncensoredOnly);
    assert!(Avsox.capability().handles(true));
    assert!(!Avsox.capability().handles(false));
    assert!(Avsox.fetch_via_api("n0698").is_some());
}

#[test]
fn search_queries_follow_site_naming() {
    assert_eq!(search_queries("SMBD-050"), vec!["SMBD-050", "SMBD-50"]);
    assert_eq!(search_queries("FC2-821825"), vec!["FC2-821825", "FC2-PPV-821825"]);
    assert_eq!(search_queries("HEYZO-1234"), vec!["HEYZO-1234"]);
    assert_eq!(search_queries("n0698"), vec!["N0698"]);
    assert_eq!(search_queries("110615-001"), vec!["110615-001"]);
}

#[test]
fn same_code_loose_ignores_leading_zeros_and_ppv() {
    assert!(same_code_loose("SMBD-50", "SMBD-050"));
    assert!(same_code_loose("FC2-PPV-821825", "FC2-821825"));
    assert!(same_code_loose("n0698", "N0698"));
    assert!(!same_code_loose("SMBD-5", "SMBD-050"));
    assert!(!same_code_loose("SMBD-51", "SMBD-050"));
    assert!(!same_code_loose("SMD-50", "SMBD-050"));
    assert!(same_code_loose("110615-001", "110615-001"));
    assert!(!same_code_loose("110615_001", "110615-001"));
}

#[test]
fn movie_json_maps_detail_fields() {
    let m = MovieEntry {
        movie_id: Some("jnoqmdn".into()),
        title: name(Some("S Model 50 : 大海まりん (ブルーレイディスク版) "), None, None),
        description: name(None, None, None),
        poster_large: Some("https://file.netcdn.space/storage/ave/archive/bigcover/dvd1smbd-50.jpg".into()),
        poster_small: Some("https://file.netcdn.space/storage/ave/archive/jacket_images/dvd1smbd-50.jpg".into()),
        release_date: Some("2012-03-05".into()),
        length: Some(110),
        studio: name(Some("スーパーモデルメディア"), None, Some("Super Model Media")),
        series: name(Some("S Model - Blu-ray"), None, None),
        genres: vec![name(Some("推荐作品"), None, None), name(Some(""), Some("美尻"), None)],
        stars: vec![StarEntry {
            name: name(Some("大海まりん"), None, None),
            avatar_url: Some("https://file.netcdn.space/a.webp".into()),
        }],
        samples: vec!["https://file.netcdn.space/ave/vodimages/screenshot/large/SMBD-50/001.jpg".into()],
    };
    let r = movie_json_to_result(&m, "SMBD-050").unwrap();
    assert_eq!(r.code, "SMBD-050");
    assert_eq!(r.source, "avsox");
    assert!(r.is_uncensored);
    assert_eq!(r.title, "S Model 50 : 大海まりん (ブルーレイディスク版)");
    assert_eq!(r.premiered, "2012-03-05");
    assert_eq!(r.duration, "110分钟");
    assert_eq!(r.studio, "スーパーモデルメディア");
    assert_eq!(r.label, "S Model - Blu-ray");
    assert_eq!(r.tags, "推荐作品, 美尻");
    assert_eq!(r.actors, "大海まりん");
    assert_eq!(r.actor_avatars[0].avatar_url, "https://file.netcdn.space/a.webp");
    assert!(r.actor_avatars[0].star_code.is_empty());
    assert_eq!(r.cover_url, "https://file.netcdn.space/storage/ave/archive/bigcover/dvd1smbd-50.jpg");
    assert_eq!(
        r.thumbs,
        vec!["https://imgs02.aventertainments.com/archive/vodimages/screenshot/large/SMBD-50/001.webp"]
    );
    assert_eq!(r.page_url, "https://avsox.click/cn/movie/jnoqmdn");
    assert!(r.plot.is_empty());
}

#[test]
fn rewrite_sample_url_only_touches_dead_ave_mirror() {
    assert_eq!(
        rewrite_sample_url("https://file.netcdn.space/ave/vodimages/screenshot/small/CWPBD-45/012.jpg"),
        "https://imgs02.aventertainments.com/archive/vodimages/screenshot/small/CWPBD-45/012.webp"
    );
    assert_eq!(
        rewrite_sample_url("https://file.netcdn.space/storage/heyzo/contents/3000/2856/gallery/001.jpg"),
        "https://file.netcdn.space/storage/heyzo/contents/3000/2856/gallery/001.jpg"
    );
    assert_eq!(
        rewrite_sample_url("https://imgs02.aventertainments.com/archive/vodimages/screenshot/large/SMBD-50/001.webp"),
        "https://imgs02.aventertainments.com/archive/vodimages/screenshot/large/SMBD-50/001.webp"
    );
}

#[test]
fn movie_json_falls_back_to_ja_title_and_rejects_empty() {
    let m = MovieEntry {
        movie_id: Some("x".into()),
        title: name(Some(""), Some("日文标题"), None),
        poster_large: Some("".into()),
        ..Default::default()
    };
    assert_eq!(movie_json_to_result(&m, "N0698").unwrap().title, "日文标题");
    let bare = MovieEntry { movie_id: Some("x".into()), ..Default::default() };
    assert!(movie_json_to_result(&bare, "N0698").is_none());
}

#[test]
fn extract_detail_url_prefers_code_match() {
    let html = r#"
        <a class="movie-box" href="/cn/movie/aaa"><span>OTHER-001</span></a>
        <a class="movie-box" href="/cn/movie/bbb"><span>HEYZO-1234 标题</span></a>
    "#;
    let url = Avsox.extract_detail_url(html, "HEYZO-1234").unwrap();
    assert_eq!(url, "https://avsox.click/cn/movie/bbb");
}

#[test]
fn extract_detail_url_keeps_d2pass_separator() {
    let html = r#"
        <a class="movie-box" href="/cn/movie/carib"><span>110615-001 加勒比</span></a>
        <a class="movie-box" href="/cn/movie/1pon"><span>110615_001 一本道</span></a>
    "#;
    assert_eq!(Avsox.extract_detail_url(html, "110615_001").unwrap(), "https://avsox.click/cn/movie/1pon");
    assert_eq!(Avsox.extract_detail_url(html, "110615-001").unwrap(), "https://avsox.click/cn/movie/carib");
    assert!(Avsox.extract_detail_url(html, "110615_002").is_none());
}

#[test]
fn build_url_returns_search_page() {
    assert_eq!(JavGuru.build_url("JUR-448"), "https://jav.guru/?s=JUR-448");
}

#[test]
fn extract_detail_url_finds_exact_match() {
    let html = r#"
    <html><body>
    <article>
        <h2><a href="https://jav.guru/954094/jur-448-english-subbed-tamed/">[JUR-448] (English subbed) title</a></h2>
    </article>
    <article>
        <h2><a href="https://jav.guru/846271/jur-448-mr-tamed/">[JUR-448-MR] tamed variant</a></h2>
    </article>
    <article>
        <h2><a href="https://jav.guru/751700/jur-448-as-my-husbands/">[JUR-448] As my husband's...</a></h2>
    </article>
    </body></html>
    "#;
    let result = JavGuru.extract_detail_url(html, "JUR-448");
    assert!(result.is_some());
    let url = result.unwrap();
    assert!(url.contains("jav.guru/"));
    assert!(url.contains("jur-448"));
}

#[test]
fn extract_detail_url_skips_non_matching() {
    let html = r#"
    <html><body>
    <article>
        <h2><a href="https://jav.guru/123/abc-999-something/">ABC-999 unrelated</a></h2>
    </article>
    </body></html>
    "#;
    let result = JavGuru.extract_detail_url(html, "JUR-448");
    assert!(result.is_none());
}

#[test]
fn parse_extracts_moo_family_fields() {
    let html = r#"
            <a class="bigImage" href="/cover/big.jpg"><img src="/cover/small.jpg"></a>
            <h3>HEYZO-1234 测试标题</h3>
            <div class="info">
              <p><span class="header">發行日期:</span> 2020-01-01</p>
              <p><span class="header">長度:</span> 60分鐘</p>
              <p><span class="header">系列:</span> 测试系列</p>
            </div>
            <span class="genre"><a href="/cn/genre/xxx">巨乳</a></span>
            <a class="avatar-box"><div class="photo-info"><span>测试演员</span></div></a>
            <div id="sample-waterfall"><a class="sample-box" href="/preview/1.jpg"></a></div>
        "#;
    let r = Avsox.parse(html, "HEYZO-1234").unwrap();
    assert!(r.is_uncensored);
    assert_eq!(r.source, "avsox");
    assert_eq!(r.title, "测试标题");
    assert_eq!(r.premiered, "2020-01-01");
    assert_eq!(r.duration, "60分钟");
    assert_eq!(r.label, "测试系列");
    assert_eq!(r.cover_url, "https://avsox.click/cover/big.jpg");
    assert_eq!(r.actors, "测试演员");
    assert_eq!(r.tags, "巨乳");
    assert_eq!(r.thumbs, vec!["https://avsox.click/preview/1.jpg"]);
}

const AVGOOD_DETAIL: &str = r#"
    <html>
      <head><title>SNOS-373 测试标题_磁力链接_AvGood</title></head>
      <body>
        <div class="title-section">
          <h1 class="content-title">SNOS-373 测试标题</h1>
          <a class="bigImage" href="/remote/pic/2026/08/21/snos-373_main.jpg"><img></a>
        </div>
        <div class="col-md-3 content-info">
          <p><span class="header">识别码:</span> <span>SNOS-373</span></p>
          <p><span class="header">发行日期:</span> 2026-08-21</p>
          <p><span class="header">长度:</span> 140分钟</p>
          <p><span class="header">导演:</span> <a href="/c/t/5579/">伊纳巴尔</a></p>
          <p><span class="header">制作商:</span> <a href="/c/t/1498/">S1 第一风格</a></p>
          <p><span class="header">发行商:</span> <a href="/c/t/30/">测试发行商</a></p>
          <p class="header">类别:</p>
          <p>
            <span class="genre"><a href="/c/t/23/">单体作品</a></span>
            <span class="genre"><a href="/c/t/29/">乳交</a></span>
            <!-- 模拟未闭合标签导致演员链接被复制进 span.genre：应被排除 -->
            <span class="genre"><a href="/c/t/134372/" title="早坂奏音">早坂奏音</a></span>
          </p>
          <p class="star-show"><span class="header">演员</span>:</p>
          <ul>
            <div class="star-box">
              <li>
                <a href="/c/t/134372/"><img src="/remote" title="早坂奏音"></a>
                <div class="star-name"><a href="/c/t/134372/" title="早坂奏音">早坂奏音</a></div>
              </li>
            </div>
          </ul>
        </div>
        <div class="samples-section">
          <a class="sample-box" href="/remote/pic/2026/08/21/snos-373_add_0.jpg"><img></a>
          <a class="sample-box" href="/remote/pic/2026/08/21/snos-373_add_1.jpg"><img></a>
        </div>
      </body>
    </html>
    "#;

#[test]
fn parse_extracts_detail_fields() {
    let r = AvGood.parse(AVGOOD_DETAIL, "SNOS-373").expect("应解析成功");
    assert_eq!(r.code, "SNOS-373");
    assert_eq!(r.title, "测试标题");
    assert_eq!(r.cover_url, "https://avgood.com/remote/pic/2026/08/21/snos-373_main.jpg");
    assert_eq!(r.premiered, "2026-08-21");
    assert_eq!(r.duration, "140分钟");
    assert_eq!(r.director, "伊纳巴尔");
    assert_eq!(r.studio, "S1 第一风格");
    assert_eq!(r.publisher, "测试发行商");
    assert_eq!(r.actors, "早坂奏音");
    assert!(r.tags.contains("单体作品") && r.tags.contains("乳交"));
    assert!(!r.tags.contains("早坂奏音"));
    assert_eq!(r.thumbs.len(), 2);
    assert_eq!(r.thumbs[0], "https://avgood.com/remote/pic/2026/08/21/snos-373_add_0.jpg");
}

#[test]
fn parse_extracts_detail_page() {
    let html = r#"
        <html>
        <head>
            <meta property="og:title" content="[JUR-448] (English subbed) Tamed by my husband's younger boss">
            <meta property="og:image" content="https://cdn.javmiku.com/wp-content/uploads/2026/03/jur448pl.jpg">
            <meta property="og:description" content="Meguri's husband's caused a massive financial loss at work.">
            <meta property="og:url" content="https://jav.guru/954094/jur-448-english-subbed/">
        </head>
        <body>
        <div class="inside-article">
            <div class="content">
                <div class="posts">
                    <h1 class="titl">[JUR-448] (English subbed) Tamed by my husband's younger boss</h1>
                    <div class="large-screenshot">
                        <div class="large-screenimg">
                            <img src="https://cdn.javmiku.com/wp-content/uploads/2026/03/jur448pl.jpg" alt="cover">
                        </div>
                    </div>
                    <div class="infometa">
                        <div class="infoleft">
                            <h2>Movie Information:</h2>
                            <ul>
                                <li><strong><span>Code: </span></strong>JUR-448</li>
                                <li><strong><span>Release Date: </span></strong>2025-09-04</li>
                                <li><strong>Category:</strong> <a href="/category/1080p/">1080p</a>, <a href="/category/english-subbed/">English subbed JAV</a>, <a href="/category/hd/">HD</a>, <a href="/category/jav/">JAV</a></li>
                                <li><strong>Director:</strong> <a href="/director/kimura-hiroyuki/">Kimura Hiroyuki</a></li>
                                <li><strong>Studio:</strong> <a href="/maker/madonna/">Madonna</a></li>
                                <li><strong>Label:</strong> <a href="/studio/jur/">JUR</a></li>
                                <li class="w1"><strong>Tags: </strong><a href="/tag/big-tits/">Big tits</a>, <a href="/tag/cuckold/">Cuckold</a>, <a href="/tag/married/">Married</a>, <a href="/tag/mature/">Mature</a>, <a href="/tag/solowork/">Solowork</a></li>
                                <li class="w1"><strong>Series:</strong> <a href="/series/breast-slave/">I Was Tamed as an Exclusive Breast Slave</a></li>
                                <li class="w1"><strong>Actor:</strong> <a href="/actor/saji-hanzo/">Saji Hanzo</a></li>
                                <li class="w1"><strong>Actress:</strong> <a href="/actress/meguri/">Meguri</a></li>
                            </ul>
                        </div>
                    </div>
                    <div class="wp-content">
                        <p>Meguri's husband's caused a massive financial loss at work.</p>
                        <p>He then demands to be compensated by having his wife.</p>
                        <p><img src="https://cdn.javmiku.com/wp-content/uploads/2025-content/09/jur00448jp-1.jpg" alt="thumb1"><br>
                        <img src="https://cdn.javmiku.com/wp-content/uploads/2025-content/09/jur00448jp-3.jpg" alt="thumb2"><br>
                        <img src="https://cdn.javmiku.com/wp-content/uploads/2026-content/03/jur00448jp-4.jpg" alt="thumb3"><br>
                        <img src="https://cdn.javmiku.com/wp-content/uploads/2026-content/03/jur00448jp-10.jpg" alt="thumb4"></p>
                    </div>
                </div>
            </div>
        </div>
        </body>
        </html>
        "#;

    let result = JavGuru.parse(html, "JUR-448").expect("应解析详情页");
    assert_eq!(result.code, "JUR-448");
    assert_eq!(result.cover_url, "https://cdn.javmiku.com/wp-content/uploads/2026/03/jur448pl.jpg");
    assert_eq!(result.premiered, "2025-09-04");
    assert_eq!(result.director, "Kimura Hiroyuki");
    assert_eq!(result.studio, "Madonna");
    assert_eq!(result.label, "JUR");
    assert_eq!(result.actors, "Meguri, Saji Hanzo");
    assert!(result.tags.contains("Big tits"));
    assert!(result.tags.contains("Cuckold"));
    assert!(result.tags.contains("Mature"));
    assert_eq!(result.set_name, "I Was Tamed as an Exclusive Breast Slave");
    assert_eq!(result.thumbs.len(), 4);
    assert!(result.thumbs[0].contains("jur00448jp-1.jpg"));
    assert!(result.plot.contains("Meguri"));
    assert!(result.plot.contains("financial loss"));
}

#[test]
fn parse_returns_none_for_empty_page() {
    let html = r#"
        <html>
        <head></head>
        <body>
            <h1 class="entry-title"></h1>
            <div class="entry-content"></div>
        </body>
        </html>
        "#;
    assert!(JavGuru.parse(html, "JUR-448").is_none());
}

#[test]
fn av123_parse_reads_head_and_detail_rows() {
    let html = r#"
        <html><head>
          <meta property="og:title" content="ABC-123 在线观看, 演员甲, 测试标题 - 123AV">
          <meta property="og:image" content="https://cdn.123av.com/abc-123.jpg">
          <meta property="og:description" content="ABC-123 在线观看并免费下载 ABC-123。头部简介 - 123AV">
          <link rel="canonical" href="https://123av.com/cn/v/abc-123">
        </head><body>
          <div class="detail-item">
            <div><span>发布日期:</span> <span>2019-10-07</span></div>
            <div><span>时长:</span> <span>02:00:00</span></div>
            <div><span>女演员:</span> <span><a href="/actresses/a">演员甲</a>, <a href="/actresses/b">演员乙</a></span></div>
            <div><span>类型:</span> <span><a href="/genres/x">剧情</a></span></div>
            <div><span>制作人:</span> <span><a href="/makers/m">制作社</a></span></div>
          </div>
        </body></html>
    "#;
    let r = Av123.parse(html, "abc-123").unwrap();
    assert_eq!(r.code, "ABC-123");
    assert_eq!(r.title, "测试标题");
    assert_eq!(r.cover_url, "https://cdn.123av.com/abc-123.jpg");
    assert_eq!(r.page_url, "https://123av.com/cn/v/abc-123");
    assert_eq!(r.premiered, "2019-10-07");
    assert_eq!(r.tagline, "发行日期 2019-10-07");
    assert_eq!(r.duration, "02:00:00");
    assert_eq!(r.actors, "演员甲, 演员乙");
    assert_eq!(r.tags, "剧情");
    assert_eq!(r.studio, "制作社");
    assert_eq!(r.plot, "头部简介");
    assert_eq!(r.source, "123av");
    assert!(Av123.parse("<html></html>", "abc-123").is_none());
}
