use rss_daily::config::PlatformConfig;
use rss_daily::medium::{
    csdn_credentials, integration_token, platform_kind, post_request, post_tags, post_title, postable_items,
    posts_url, PlatformKind, PushError,
};
use rss_daily::models::{Owner, Repository};

fn repo(language: Option<&str>, topics: &[&str], readme: Option<&str>) -> Repository {
    Repository {
        id: 1,
        name: "o/r".to_string(),
        full_name: "o/r".to_string(),
        description: None,
        html_url: String::new(),
        stars: 1,
        forks: 1,
        language: language.map(|s| s.to_string()),
        topics: topics.iter().map(|s| s.to_string()).collect(),
        created_at: 0,
        updated_at: 0,
        pushed_at: 0,
        open_issues: 0,
        owner: Owner { login: String::new(), avatar_url: String::new() },
        readme: readme.map(|s| s.to_string()),
        stars_today: None,
    }
}

#[test]
fn titles_and_tags() {
    let r = repo(Some("Rust"), &["cli", "tool"], None);
    assert_eq!(post_title(&r), "GitHub Trending: o/r");
    assert_eq!(post_tags(&r), vec!["GitHub", "Open Source", "Rust", "cli"]);
    assert_eq!(post_tags(&repo(None, &[], None)), vec!["GitHub", "Open Source"]);
    let req = post_request(&r, "# body");
    assert_eq!(req.content_format, "markdown");
    assert_eq!(req.publish_status, "public");
    assert_eq!(req.content, "# body");
    assert_eq!(posts_url("u1"), "https://api.medium.com/v1/users/u1/posts");
}

#[test]
fn platforms() {
    assert_eq!(platform_kind("medium"), PlatformKind::Medium);
    assert_eq!(platform_kind("csdn"), PlatformKind::Csdn);
    assert_eq!(platform_kind("Medium"), PlatformKind::Unknown);
    let mut p = PlatformConfig { name: "medium".to_string(), username: None, password: None, extra: vec![] };
    assert_eq!(integration_token(&p), Err(PushError::MissingIntegrationToken));
    p.extra.push(("integration_token".to_string(), Some("abc".to_string())));
    assert_eq!(integration_token(&p), Ok("abc".to_string()));
}

#[test]
fn csdn_needs_username_and_password() {
    let mut p = PlatformConfig { name: "csdn".to_string(), username: Some("me".to_string()), password: None, extra: vec![] };
    assert_eq!(csdn_credentials(&p), Err(PushError::MissingCsdnCredentials));
    p.password = Some("pw".to_string());
    assert_eq!(csdn_credentials(&p), Ok(("me".to_string(), "pw".to_string())));
    p.username = None;
    assert_eq!(csdn_credentials(&p), Err(PushError::MissingCsdnCredentials));
}

#[test]
fn only_repositories_with_readme_are_pushed() {
    let repos = vec![repo(None, &[], Some("R1")), repo(None, &[], None), repo(None, &[], Some("R3"))];
    let items = postable_items(&repos);
    assert_eq!(items.iter().map(|(_, m)| m.clone()).collect::<Vec<_>>(), vec!["R1", "R3"]);
}
