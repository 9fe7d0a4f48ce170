use news_digest::summary::{
    article_block, check_summary_reply, digest_text, weather_description, SummaryError,
    MAX_CHUNK_CHARS,
};
use news_digest::text::chunk_text;
use news_digest::types::{Article, Config, FilterConfig, Source};

fn article(title: &str, content: &str) -> Article {
    Article {
        title: title.to_string(),
        content: content.to_string(),
        source: String::new(),
        date: String::new(),
        description: format!("{} in short", title),
    }
}

#[test]
fn digest_blocks() {
    assert_eq!(article_block(&article("T", "C")), "Title: T\nDescription: T in short\nContent: C\n---\n");
    let text = digest_text(&vec![article("A", "x"), article("B", "y")]);
    assert_eq!(text, "Title: A\nDescription: A in short\nContent: x\n---\nTitle: B\nDescription: B in short\nContent: y\n---\n");
    assert_eq!(digest_text(&Vec::new()), "");
}

#[test]
fn digest_chunks_by_budget() {
    let articles: Vec<Article> = (0..30).map(|i| article(&format!("n{}", i), &"z".repeat(900))).collect();
    let text = digest_text(&articles);
    let chunks = chunk_text(&text, MAX_CHUNK_CHARS);
    let total = text.chars().count();
    assert_eq!(chunks.len(), (total + MAX_CHUNK_CHARS - 1) / MAX_CHUNK_CHARS);
    assert_eq!(chunks.concat(), text);
}

#[test]
fn summary_reply_checks() {
    assert_eq!(check_summary_reply(200, Some("Good morning".to_string())), Ok("Good morning".to_string()));
    assert_eq!(check_summary_reply(200, Some(String::new())), Err(SummaryError::MissingContent));
    assert_eq!(check_summary_reply(204, None), Err(SummaryError::MissingContent));
    assert_eq!(check_summary_reply(429, Some("x".to_string())), Err(SummaryError::Status(429)));
    assert_eq!(check_summary_reply(302, None), Err(SummaryError::Status(302)));
}

#[test]
fn weather_codes() {
    assert_eq!(weather_description(0), "Clear sky");
    assert_eq!(weather_description(2), "Partly cloudy");
    assert_eq!(weather_description(48), "Foggy");
    assert_eq!(weather_description(55), "Drizzle");
    assert_eq!(weather_description(63), "Rain");
    assert_eq!(weather_description(77), "Snow");
    assert_eq!(weather_description(80), "Showers");
    assert_eq!(weather_description(99), "Thunderstorm");
    assert_eq!(weather_description(4), "Unknown");
    assert_eq!(weather_description(255), "Unknown");
}

#[test]
fn environment_overrides_file_secrets() {
    let cfg = Config {
        news_sources: vec![Source { url: "http://feed".to_string() }],
        filter: FilterConfig { categories: vec!["tech".to_string()], banned: vec![] },
        city: "Paris".to_string(),
        api_key: "file-key".to_string(),
        api_url: "http://file".to_string(),
        language: "French".to_string(),
    };
    let out = cfg.with_env_overrides(Some("env-key".to_string()), None, Some("English".to_string()));
    assert_eq!(out.api_key, "env-key");
    assert_eq!(out.api_url, "http://file");
    assert_eq!(out.language, "English");
    assert_eq!(out.city, "Paris");
    assert_eq!(out.news_sources[0].url, "http://feed");
}
