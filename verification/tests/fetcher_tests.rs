use rss_daily::fetcher::{classify_growth, days_between_exec, FetchError, Growth, TrendingFetcher};
use rss_daily::models::{Owner, Repository};

fn repo(id: u64, name: &str, stars: u32, stars_today: Option<u32>) -> Repository {
    Repository {
        id,
        name: name.to_string(),
        full_name: format!("owner/{}", name),
        description: Some(format!("{} description", name)),
        html_url: format!("https://github.com/owner/{}", name),
        stars,
        forks: 5,
        language: Some("Rust".to_string()),
        topics: vec![],
        created_at: 1_700_000_000,
        updated_at: 1_700_000_000,
        pushed_at: 1_700_000_000,
        open_issues: 0,
        owner: Owner { login: "owner".to_string(), avatar_url: String::new() },
        readme: None,
        stars_today,
    }
}

fn names(v: &[Repository]) -> Vec<String> {
    v.iter().map(|r| r.name.clone()).collect()
}

#[test]
fn new_fetcher_state() {
    let f = TrendingFetcher::new("tok");
    assert_eq!(f.token(), "tok");
    assert_eq!(f.storage().base_dir(), "data/github_trending");
    assert_eq!(f.get_history_data().map(|h| h.len()), Ok(0));
}

#[test]
fn history_unavailable() {
    let mut f = TrendingFetcher::new("tok");
    f.set_history(None);
    assert_eq!(f.get_history_data().err(), Some(FetchError::HistoryUnavailable));
    let repos = vec![repo(1, "a", 10, None)];
    assert_eq!(names(&f.filter_recommended(&repos, false)), vec!["a"]);
}

#[test]
fn recommend_again_keeps_everything() {
    let mut f = TrendingFetcher::new("tok");
    f.set_history(Some(vec![repo(1, "a", 10, None)]));
    let repos = vec![repo(1, "a", 10, None), repo(2, "b", 10, None)];
    assert_eq!(names(&f.filter_recommended(&repos, true)), vec!["a", "b"]);
}

#[test]
fn history_filters_recommended() {
    let mut f = TrendingFetcher::new("tok");
    f.set_history(Some(vec![repo(1, "a", 10, None), repo(3, "c", 10, None)]));
    let repos = vec![repo(1, "a", 10, None), repo(2, "b", 10, None), repo(3, "c", 1, None), repo(4, "d", 1, None)];
    assert_eq!(names(&f.filter_recommended(&repos, false)), vec!["b", "d"]);
}

#[test]
fn empty_history_filters_nothing() {
    let f = TrendingFetcher::new("tok");
    let repos = vec![repo(1, "a", 10, None), repo(2, "b", 10, None)];
    assert_eq!(names(&f.filter_recommended(&repos, false)), vec!["a", "b"]);
}

#[test]
fn ranking_is_stable_by_stars_today_then_score() {
    let f = TrendingFetcher::new("tok");
    let mut repos = vec![
        repo(1, "a", 1, Some(5)),
        repo(2, "b", 1, None),
        repo(3, "c", 1, Some(9)),
        repo(4, "d", 1, Some(5)),
        repo(5, "e", 1, Some(5)),
    ];
    let scores = vec![10, 99, 1, 20, 10];
    f.rank_repositories(&mut repos, &scores);
    assert_eq!(names(&repos), vec!["c", "d", "a", "e", "b"]);
}

#[test]
fn ranking_a_ranked_list_again_changes_nothing() {
    let f = TrendingFetcher::new("tok");
    let mut repos = vec![
        repo(1, "a", 1, Some(5)),
        repo(2, "b", 1, None),
        repo(3, "c", 1, Some(9)),
        repo(4, "d", 1, Some(5)),
        repo(5, "e", 1, Some(5)),
    ];
    let scores = vec![10, 99, 1, 20, 10];
    f.rank_repositories(&mut repos, &scores);
    let by_id = |id: u64| scores[(id - 1) as usize];
    let again: Vec<i64> = repos.iter().map(|r| by_id(r.id)).collect();
    let once = names(&repos);
    f.rank_repositories(&mut repos, &again);
    assert_eq!(names(&repos), once);
}

#[test]
fn growth_classes() {
    let history = vec![repo(1, "a", 100, None), repo(2, "b", 0, None), repo(1, "a", 5, None)];
    assert_eq!(classify_growth(&repo(9, "z", 10, None), &history), Growth::New);
    assert_eq!(
        classify_growth(&repo(1, "a", 150, None), &history),
        Growth::Significant { gained: 50, base: 100 }
    );
    assert_eq!(classify_growth(&repo(1, "a", 120, None), &history), Growth::Modest { gained: 20, base: 100 });
    assert_eq!(classify_growth(&repo(1, "a", 90, None), &history), Growth::Stagnant);
    assert_eq!(classify_growth(&repo(2, "b", 1, None), &history), Growth::Significant { gained: 1, base: 1 });
}

#[test]
fn day_counts_truncate() {
    assert_eq!(days_between_exec(86_400 * 3 + 5, 0), 3);
    assert_eq!(days_between_exec(0, 86_400 + 1), -1);
    assert_eq!(days_between_exec(0, 100), 0);
}

#[test]
fn secrets_are_redacted() {
    let f = TrendingFetcher::new("tok");
    let token = format!("{}.{}.{}", "A".repeat(24), "B".repeat(6), "C".repeat(27));
    let mut r = repo(1, "a", 1, None);
    r.description = Some(format!("leaked {} here", token));
    r.readme = Some("clean readme".to_string());
    let mut repos = vec![r, repo(2, "b", 1, None)];
    f.sanitize_repos(&mut repos);
    assert_eq!(repos[0].description.as_deref(), Some("leaked [REDACTED_SECRET] here"));
    assert_eq!(repos[0].readme.as_deref(), Some("clean readme"));
    assert_eq!(repos[1].description.as_deref(), Some("b description"));
    let mfa = format!("mfa.{}", "x".repeat(84));
    let mut repos = vec![repo(3, "c", 1, None)];
    repos[0].readme = Some(mfa);
    f.sanitize_repos(&mut repos);
    assert_eq!(repos[0].readme.as_deref(), Some("[REDACTED_SECRET]"));
}

#[test]
fn sanitizing_twice_is_sanitizing_once() {
    let f = TrendingFetcher::new("tok");
    let token = format!("{}.{}.{}", "k".repeat(24), "9".repeat(6), "_".repeat(27));
    let mut r = repo(1, "a", 1, None);
    r.description = Some(format!("{} and {}", token, token));
    r.readme = Some(format!("x{}y", token));
    let mut repos = vec![r];
    f.sanitize_repos(&mut repos);
    let once = (repos[0].description.clone(), repos[0].readme.clone());
    assert_eq!(once.0.as_deref(), Some("[REDACTED_SECRET] and [REDACTED_SECRET]"));
    f.sanitize_repos(&mut repos);
    assert_eq!((repos[0].description.clone(), repos[0].readme.clone()), once);
}
