use rss_daily::models::{Owner, Repository};
use rss_daily::storage::{collect_dates, gather_history, str_lt, DailyData, DataStorage};

fn repo(id: u64) -> Repository {
    Repository {
        id,
        name: format!("r{}", id),
        full_name: format!("o/r{}", id),
        description: None,
        html_url: String::new(),
        stars: 1,
        forks: 1,
        language: None,
        topics: vec![],
        created_at: 0,
        updated_at: 0,
        pushed_at: 0,
        open_issues: 0,
        owner: Owner { login: String::new(), avatar_url: String::new() },
        readme: None,
        stars_today: None,
    }
}

#[test]
fn archive_paths() {
    let s = DataStorage::new("data/github_trending");
    assert_eq!(s.base_dir(), "data/github_trending");
    let p = s.archive_path("2026-01-02", "trending");
    assert_eq!(p.year, "2026");
    assert_eq!(p.month_day, "01-02");
    assert_eq!(p.file_name, "2026-01-02_trending.json");
    let q = s.archive_path("today", "trending");
    assert_eq!(q.year, "unknown");
    assert_eq!(q.month_day, "today");
    assert_eq!(q.file_name, "today_trending.json");
}

#[test]
fn dates_are_sorted_and_unique() {
    let files: Vec<String> = vec![
        "2026-01-03_trending.json",
        "2025-12-31_trending.json",
        "2026-01-03_other.json",
        "notes.txt",
        "2026-01-01_trending.json",
    ]
    .into_iter()
    .map(|s| s.to_string())
    .collect();
    assert_eq!(collect_dates(&files), vec!["2025-12-31", "2026-01-01", "2026-01-03"]);
    assert!(collect_dates(&vec![]).is_empty());
}

#[test]
fn saved_date_is_listed() {
    let s = DataStorage::new("base");
    let p = s.archive_path("2026-03-04", "trending");
    assert_eq!(collect_dates(&vec![p.file_name]), vec!["2026-03-04"]);
}

#[test]
fn string_order() {
    assert!(str_lt("2025-12-31", "2026-01-01"));
    assert!(str_lt("a", "ab"));
    assert!(!str_lt("b", "ab"));
    assert!(!str_lt("x", "x"));
}

#[test]
fn history_concatenates_days() {
    let days = vec![
        DailyData { date: "d1".to_string(), name: "t".to_string(), repositories: vec![repo(1), repo(2)], created_at: 0 },
        DailyData { date: "d2".to_string(), name: "t".to_string(), repositories: vec![], created_at: 0 },
        DailyData { date: "d3".to_string(), name: "t".to_string(), repositories: vec![repo(3)], created_at: 0 },
    ];
    let h = gather_history(&days);
    assert_eq!(h.iter().map(|r| r.id).collect::<Vec<_>>(), vec![1, 2, 3]);
}
