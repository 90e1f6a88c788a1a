use rss_daily::models::{Owner, Repository};
use rss_daily::readme::{LocaleText, ReadmeGenerator};

fn text() -> LocaleText {
    let s = |x: &str| x.to_string();
    LocaleText {
        title_prefix: s("Trending"),
        description: s("Desc"),
        highlights_title: s("Stats"),
        table_stat: s("Stat"),
        table_value: s("Value"),
        stat_items: s("Items"),
        stat_time: s("Time"),
        table_indicator: s("Metric"),
        table_val: s("Val"),
        stars_today_label: s("Today"),
        desc_label: s("About"),
        rss_title: s("Feeds"),
        rss_desc: s("Subscribe"),
        rss_daily_xml_title: s("Daily"),
        rss_daily_report_title: s("Report"),
        footer: s("Made at"),
        cat_backend: s("Backend"),
        cat_frontend: s("Frontend"),
        cat_mobile: s("Mobile"),
        cat_ai_ml: s("AI"),
        cat_daily_top: s("Top"),
        landing_title: s("LT"),
        landing_subtitle: s("LS"),
        landing_today_title: s("TT"),
        landing_today_desc: s("TD"),
        landing_today_link: s("TL"),
        landing_rss_title: s("RT"),
        landing_rss_desc: s("RD"),
        landing_rss_xml_label: s("RL"),
        landing_features_title: s("FT"),
        landing_feature_algo: s("F1"),
        landing_feature_daily: s("F2"),
        landing_feature_card: s("F3"),
        landing_feature_rss: s("F4"),
        landing_history_title: s("HT"),
        landing_history_desc: s("HD"),
    }
}

fn repo() -> Repository {
    Repository {
        id: 1,
        name: "o/r".to_string(),
        full_name: "o/r".to_string(),
        description: Some("A repo".to_string()),
        html_url: "https://github.com/o/r".to_string(),
        stars: 12,
        forks: 3,
        language: None,
        topics: vec!["a", "b", "c", "d", "e", "f"].into_iter().map(|s| s.to_string()).collect(),
        created_at: 0,
        updated_at: 0,
        pushed_at: 0,
        open_issues: 0,
        owner: Owner { login: "o".to_string(), avatar_url: String::new() },
        readme: None,
        stars_today: Some(4),
    }
}

#[test]
fn emoji_and_names() {
    let g = ReadmeGenerator::new();
    let t = text();
    assert_eq!(g.get_category_emoji("backend"), "🔧");
    assert_eq!(g.get_category_emoji("daily-top"), "🌟");
    assert_eq!(g.get_category_emoji("other"), "📦");
    assert_eq!(g.format_category_name("ai-ml", &t), "AI");
    assert_eq!(g.format_category_name("games", &t), "games");
    assert_eq!(g.daily_file_names("2026-01-02", "zh"), ("README_2026-01-02_CN.md".to_string(), "GITHUB_TODAY_CN.md"));
    assert_eq!(g.daily_file_names("2026-01-02", "en"), ("README_2026-01-02.md".to_string(), "GITHUB_TODAY.md"));
}

#[test]
fn daily_readme_exact() {
    let g = ReadmeGenerator::new();
    let cats = vec![("backend".to_string(), vec![repo()]), ("mobile".to_string(), vec![])];
    let out = g.generate_daily_readme("2026-01-02", &cats, "en", &text(), "2026-01-02 10:00 UTC", "2026-01-02 10:00:05 UTC");
    let expected = "# Trending - 2026-01-02\n\n\
Desc\n\n\
## Stats\n\n\
| Stat | Value |\n\
|--------|------|\n\
| Items | **1** |\n\
| Time | 2026-01-02 10:00 UTC |\n\n\
---\n\n\
## 🔧 Backend\n\n\
### 1. [o/r](https://github.com/o/r)\n\n\
| Metric | Val |\n\
|------|----|\n\
| ⭐ Stars | **12** |\n\
| 🍴 Forks | **3** |\n\
| 💻 Language | N/A |\n\
| 🏷️ Tags | `a` `b` `c` `d` `e` |\n\
| Today | **4** |\n\
\n\
**About:** A repo\n\n\
![o/r](2026-01-02_backend_o_r.png)\n\n\
---\n\n\
## Feeds\n\n\
Subscribe\n\n\
- 🔔 [Daily] (../../daily-top.xml)\n\
- 🔔 [Report] (../../GITHUB_TODAY.md)\n\
- 🔔 [Backend](../../backend.xml)\n\
- 🔔 [Mobile](../../mobile.xml)\n\
\n---\n\n\
Made at 2026-01-02 10:00:05 UTC\n";
    assert_eq!(out, expected);
}

#[test]
fn chinese_report_link() {
    let g = ReadmeGenerator::new();
    let out = g.generate_daily_readme("d", &vec![], "zh", &text(), "t1", "t2");
    assert!(out.contains("- 🔔 [Report] (../../GITHUB_TODAY_CN.md)\n"));
    assert!(out.contains("| Items | **0** |\n"));
}

#[test]
fn landing_page() {
    let g = ReadmeGenerator::new();
    let out = g.generate_landing_readme("zh", &text());
    assert_eq!(
        out,
        "# LT\n\n> LS\n\n## TT\n\nTD\n\n**[TL](docs/rss/GITHUB_TODAY_CN.md)**\n\n## RT\n\nRD\n\n- **RL**: [docs/rss/daily-top.xml](docs/rss/daily-top.xml)\n\n## FT\n\n- F1\n- F2\n- F3\n- F4\n\n## HT\n\nHD\n"
    );
}
