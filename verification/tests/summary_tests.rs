use rss_daily::config::Config;
use rss_daily::models::{Owner, Repository};
use rss_daily::summary::{
    extract_highlight_list, extract_highlights, model_summary, openai_prompt, readme_url,
    reply_content, ChatChoice, ChatReply, SummaryError, SummaryGenerator, SummaryRoute,
};

const UPDATED: i64 = 1_704_153_600; // 2024-01-02 00:00:00 UTC
const NOW: i64 = UPDATED + 3 * 86_400;

fn repo(stars: u32, forks: u32, description: Option<&str>, language: Option<&str>) -> Repository {
    Repository {
        id: 7,
        name: "owner/proj".to_string(),
        full_name: "owner/proj".to_string(),
        description: description.map(|s| s.to_string()),
        html_url: "https://github.com/owner/proj".to_string(),
        stars,
        forks,
        language: language.map(|s| s.to_string()),
        topics: vec![],
        created_at: UPDATED,
        updated_at: UPDATED,
        pushed_at: UPDATED,
        open_issues: 0,
        owner: Owner { login: "owner".to_string(), avatar_url: String::new() },
        readme: None,
        stars_today: None,
    }
}

fn generator(provider: &str, enabled: bool, key: Option<&str>) -> SummaryGenerator {
    let mut c = Config::default_with_token("ghp".to_string());
    c.summary.provider = provider.to_string();
    c.summary.enabled = enabled;
    c.summary.api_key = key.map(|k| k.to_string());
    SummaryGenerator::new(&c)
}

#[test]
fn routes() {
    assert!(matches!(generator("openai", false, Some("k")).route(), SummaryRoute::Simple));
    match generator("openai", true, Some("k")).route() {
        SummaryRoute::OpenAi { api_key } => assert_eq!(api_key, "k"),
        _ => panic!("expected the OpenAI route"),
    }
    assert!(matches!(generator("openai", true, None).route(), SummaryRoute::Simple));
    assert!(matches!(generator("local", true, None).route(), SummaryRoute::Local));
    assert!(matches!(generator("simple", true, None).route(), SummaryRoute::Simple));
}

#[test]
fn highlights() {
    let r = repo(1500, 200, Some("d"), Some("Rust"));
    assert_eq!(extract_highlight_list(&r, "zh", NOW), vec!["热门项目", "活跃维护", "最近更新"]);
    assert_eq!(
        extract_highlight_list(&r, "en", NOW + 10 * 86_400),
        vec!["popular project", "actively maintained"]
    );
    assert_eq!(extract_highlights(&repo(1, 1, None, None), "en", NOW + 30 * 86_400), "Emerging project worth watching");
    assert_eq!(extract_highlights(&r, "en", NOW), "popular project\nactively maintained\nrecently updated");
}

#[test]
fn simple_chinese_summary() {
    let g = generator("simple", true, None);
    let r = repo(1500, 200, Some("短描述"), Some("Rust"));
    let s = g.generate_simple_summary(&r, "zh", NOW);
    assert_eq!(s.content, "短描述。热门项目，活跃维护，最近更新");
    assert_eq!(s.language, "zh");
    assert_eq!(s.key_points, vec!["⭐ 1500 stars", "🍴 200 forks", "💻 Rust", "📅 最近更新: 2024-01-02"]);
}

#[test]
fn simple_english_summary_clips_description() {
    let g = generator("simple", true, None);
    let long = "x".repeat(200);
    let r = repo(5, 1, Some(&long), None);
    let s = g.generate_simple_summary(&r, "en", NOW + 30 * 86_400);
    assert_eq!(s.content, format!("{}. emerging project worth watching", "x".repeat(150)));
    assert_eq!(s.key_points[2], "💻 Unknown");
    assert_eq!(s.key_points[3], "📅 Updated: 2024-01-02");
    let none = g.generate_simple_summary(&repo(5, 1, None, None), "en", NOW + 30 * 86_400);
    assert_eq!(none.content, "No description. emerging project worth watching");
}

#[test]
fn chinese_description_clipped_at_100_bytes() {
    let g = generator("simple", true, None);
    let d = "中".repeat(50); // 150 bytes; 100 is not a boundary, 99 is
    let d2 = format!("a{}", "中".repeat(40)); // 121 bytes; byte 100 is a boundary
    let s = g.generate_simple_summary(&repo(1, 1, Some(&d2), None), "zh", NOW + 30 * 86_400);
    assert_eq!(s.content, format!("a{}。新兴项目，值得关注", "中".repeat(33)));
    assert_eq!(d.len(), 150);
}

#[test]
fn prompt_and_urls() {
    let r = repo(42, 1, None, Some("Go"));
    let p = openai_prompt(&r, "en", "README TEXT");
    assert!(p.starts_with("Generate a concise summary (max 500 characters)"));
    assert!(p.contains("Name: owner/proj\nDescription: No description\nStars: 42\nLanguage: Go\nREADME Content:\nREADME TEXT\n\nRequirements:"));
    let z = openai_prompt(&r, "zh", "R");
    assert!(z.contains("名称: owner/proj\n描述: 无描述\nStars: 42\n语言: Go\nREADME内容:\nR\n\n要求:"));
    assert_eq!(readme_url(&r), "https://api.github.com/repos/owner/proj/readme");
    let g = generator("openai", true, Some("k"));
    assert_eq!(g.chat_completions_url(), "https://api.openai.com/v1/chat/completions");
    assert_eq!(g.chat_model(), "gpt-4o-mini");
    assert_eq!(g.github_authorization(), "token ghp");
}

#[test]
fn replies() {
    let ok = ChatReply { choices: vec![ChatChoice { content: Some("  summary text \n".to_string()) }] };
    assert_eq!(reply_content(&ok), Ok("summary text".to_string()));
    let empty = ChatReply { choices: vec![] };
    assert_eq!(reply_content(&empty), Err(SummaryError::InvalidResponse));
    let not_text = ChatReply { choices: vec![ChatChoice { content: None }] };
    assert_eq!(reply_content(&not_text), Err(SummaryError::InvalidResponse));
}

#[test]
fn model_failure_falls_back_to_simple() {
    let g = generator("openai", true, Some("k"));
    let r = repo(1500, 200, Some("desc"), Some("Rust"));
    let fallback = g.finish_model_summary(&r, "en", NOW, None);
    assert_eq!(fallback.content, "desc. popular project, actively maintained, recently updated");
    assert_eq!(fallback.key_points.len(), 4);
    let answered = g.finish_model_summary(&r, "zh", NOW, Some("AI text".to_string()));
    assert_eq!(answered.content, "AI text");
    assert_eq!(answered.key_points, vec!["⭐ 1500 stars", "💻 Rust", "📅 更新: 2024-01-02"]);
    let m = model_summary(&r, "en", "x".to_string());
    assert_eq!(m.key_points[2], "📅 Updated: 2024-01-02");
}
