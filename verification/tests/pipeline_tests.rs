use rss_daily::config::Category;
use rss_daily::models::{Owner, Repository};
use rss_daily::pipeline::{
    latest_report, mock_repository, needs_mock_data, output_dirs, rss_item,
    select_category_repos,
};

fn repo(name: &str, topics: &[&str]) -> Repository {
    Repository {
        id: 1,
        name: name.to_string(),
        full_name: name.to_string(),
        description: None,
        html_url: format!("https://github.com/{}", name),
        stars: 1,
        forks: 1,
        language: None,
        topics: topics.iter().map(|s| s.to_string()).collect(),
        created_at: 0,
        updated_at: 77,
        pushed_at: 0,
        open_issues: 0,
        owner: Owner { login: String::new(), avatar_url: String::new() },
        readme: None,
        stars_today: None,
    }
}

fn category(keywords: &[&str], topics: &[&str], max_items: usize) -> Category {
    Category {
        name: "c".to_string(),
        language: "en".to_string(),
        keywords: keywords.iter().map(|s| s.to_string()).collect(),
        topics: topics.iter().map(|s| s.to_string()).collect(),
        max_items,
    }
}

fn names(v: &[Repository]) -> Vec<String> {
    v.iter().map(|r| r.name.clone()).collect()
}

#[test]
fn output_directories() {
    assert_eq!(output_dirs("2026-01-02"), ("2026".to_string(), "01-02".to_string()));
    assert_eq!(output_dirs("today"), ("today".to_string(), "today".to_string()));
}

#[test]
fn top_mode_takes_first() {
    let repos = vec![repo("a", &[]), repo("b", &[]), repo("c", &[])];
    assert_eq!(names(&select_category_repos(&category(&[], &[], 2), &repos)), vec!["a", "b"]);
    assert_eq!(names(&select_category_repos(&category(&[], &[], 10), &repos)), vec!["a", "b", "c"]);
}

#[test]
fn keyword_and_topic_mode() {
    let repos = vec![
        repo("My-Backend-Kit", &[]),
        repo("ui-lib", &["frontend"]),
        repo("api-server", &[]),
        repo("other", &["api"]),
    ];
    let c = category(&["backend", "server"], &["api"], 10);
    assert_eq!(names(&select_category_repos(&c, &repos)), vec!["My-Backend-Kit", "api-server", "other"]);
    let c1 = category(&["backend", "server"], &["api"], 1);
    assert_eq!(names(&select_category_repos(&c1, &repos)), vec!["My-Backend-Kit"]);
}

#[test]
fn latest_report_links() {
    let content = "![x](2026-01-02_top_a.png)\n![y](2026-01-02_top_b.png)\n";
    assert_eq!(
        latest_report(content, "2026-01-02", "2026", "01-02"),
        "![x](2026/01-02/2026-01-02_top_a.png)\n![y](2026/01-02/2026-01-02_top_b.png)\n"
    );
    assert_eq!(latest_report("no links", "2026-01-02", "2026", "01-02"), "no links");
}

#[test]
fn mock_data() {
    assert!(needs_mock_data(true, 5));
    assert!(needs_mock_data(false, 0));
    assert!(!needs_mock_data(false, 3));
    let m = mock_repository(1000);
    assert_eq!(m.id, 12345678);
    assert_eq!(m.name, "mock-repo-preview");
    assert_eq!(m.stars_today, Some(888));
    assert_eq!(m.updated_at, 1000);
    assert_eq!(m.topics, vec!["rust", "trending", "mock"]);
}

#[test]
fn rss_items() {
    let mut r = repo("o/r", &[]);
    let plain = rss_item(&r, None, "en");
    assert_eq!(plain.title, "o/r - ");
    assert_eq!(plain.description, "");
    assert_eq!(plain.image_url, "");
    assert_eq!(plain.pub_date, 77);
    r.description = Some("d".to_string());
    let carded = rss_item(&r, Some(("<html/>", "img.png")), "zh");
    assert_eq!(carded.title, "o/r - d");
    assert_eq!(carded.link, "https://github.com/o/r");
    assert_eq!(carded.description, "<html/>");
    assert_eq!(carded.image_url, "img.png");
    assert_eq!(carded.language, "zh");
}
