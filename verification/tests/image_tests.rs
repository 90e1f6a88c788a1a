use rss_daily::config::Config;
use rss_daily::image::{card_image_name, ImageGenerator};
use rss_daily::models::{Owner, Repository};

fn test_repo() -> Repository {
    Repository {
        id: 1,
        name: "test-owner/test-repo".to_string(),
        full_name: "test-owner/test-repo".to_string(),
        description: Some("A test repository for image generation".to_string()),
        html_url: "https://github.com/test-owner/test-repo".to_string(),
        stars: 100,
        forks: 50,
        language: Some("Rust".to_string()),
        topics: vec!["test".to_string(), "rust".to_string()],
        created_at: 1_767_225_600,
        updated_at: 1_767_225_600,
        pushed_at: 1_767_225_600,
        open_issues: 10,
        owner: Owner {
            login: "test-owner".to_string(),
            avatar_url: "https://github.com/test-owner.png".to_string(),
        },
        readme: None,
        stars_today: Some(10),
    }
}

#[test]
fn test_generate_card_image() {
    let config = Config::default_with_token(String::new());
    let generator = ImageGenerator::new(&config);
    let repo = test_repo();
    let result = generator.card_image_target(&repo, "test_real_template", "2026-01-01");
    assert!(result.is_some());
    let filename = result.unwrap();
    assert!(filename.ends_with(".png"));
    assert_eq!(filename, "2026-01-01_test_real_template_test-owner_test-repo.png");
    assert_eq!(generator.width(), 1200);
    assert_eq!(generator.height(), 400);
}

#[test]
fn disabled_images_are_not_rendered() {
    let mut config = Config::default_with_token(String::new());
    config.image.enabled = false;
    let generator = ImageGenerator::new(&config);
    assert!(generator.card_image_target(&test_repo(), "daily-top", "2026-01-01").is_none());
}

#[test]
fn card_image_names() {
    assert_eq!(card_image_name("2024-05-06", "backend", "a/b"), "2024-05-06_backend_a_b.png");
}
