use rss_daily::config::{
    default_allow_recommend_again, default_min_stars, Config, DebugConfig, EnvOverrides,
    PlatformConfig,
};

fn platform(name: &str) -> PlatformConfig {
    PlatformConfig {
        name: name.to_string(),
        username: Some("old-user".to_string()),
        password: None,
        extra: vec![
            ("integration_token".to_string(), Some("tok".to_string())),
            ("retries".to_string(), None),
        ],
    }
}

#[test]
fn defaults() {
    assert!(default_allow_recommend_again());
    assert_eq!(default_min_stars(), 10);
    assert!(!DebugConfig::default().mock_mode);
    let c = Config::default_with_token("abc".to_string());
    assert_eq!(c.github_token, "abc");
    assert_eq!(c.languages, vec!["rust", "python", "javascript"]);
    assert_eq!(c.categories.len(), 2);
    assert_eq!(c.categories[0].name, "backend");
    assert_eq!(c.categories[1].keywords, vec!["frontend", "ui", "react"]);
    assert_eq!(c.summary.provider, "simple");
    assert_eq!(c.image.width, 1200);
    assert_eq!(c.image.background_color, "#1a1a1a");
    assert_eq!(c.min_stars, 10);
    assert!(c.allow_recommend_again);
    assert!(!c.push.enabled);
}

#[test]
fn env_overrides_apply() {
    let mut c = Config::default_with_token("file-token".to_string());
    c.push.platforms = vec![platform("csdn"), platform("medium")];
    let env = EnvOverrides {
        github_token: Some("env-token".to_string()),
        openai_api_key: Some("sk-1".to_string()),
        csdn_username: Some("new-user".to_string()),
        csdn_password: Some("pw".to_string()),
        debug_mock_mode: Some("true".to_string()),
    };
    c.apply_env_overrides(&env);
    assert_eq!(c.github_token, "env-token");
    assert_eq!(c.summary.api_key.as_deref(), Some("sk-1"));
    assert_eq!(c.push.platforms[0].username.as_deref(), Some("new-user"));
    assert_eq!(c.push.platforms[0].password.as_deref(), Some("pw"));
    assert_eq!(c.push.platforms[1].username.as_deref(), Some("old-user"));
    assert_eq!(c.push.platforms[1].password, None);
    assert!(c.debug.mock_mode);
}

#[test]
fn env_overrides_absent_keep_config() {
    let mut c = Config::default_with_token("file-token".to_string());
    let env = EnvOverrides {
        github_token: None,
        openai_api_key: None,
        csdn_username: None,
        csdn_password: None,
        debug_mock_mode: Some("yes".to_string()),
    };
    c.apply_env_overrides(&env);
    assert_eq!(c.github_token, "file-token");
    assert_eq!(c.summary.api_key, None);
    assert!(!c.debug.mock_mode);
}

#[test]
fn string_settings() {
    let p = platform("medium");
    assert_eq!(p.string_setting("integration_token").as_deref(), Some("tok"));
    assert_eq!(p.string_setting("retries"), None);
    assert_eq!(p.string_setting("missing"), None);
}
