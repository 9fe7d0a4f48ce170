use news_digest::dedup::DedupRegistry;
use news_digest::feed::{
    fetch_news, fetch_source, gather_news, is_fresh, FeedError, UtcInstant, DEFAULT_FRESHNESS_SECS,
};
use news_digest::types::Article;

/// 2015-02-18 23:16:09 UTC.
const NOW: UtcInstant = UtcInstant { secs: 1424301369, nanos: 0 };

fn item(title: &str, link: &str, date: &str) -> String {
    format!(
        "<item><title>{}</title><link>{}</link><description>About {}</description><pubDate>{}</pubDate></item>",
        title, link, title, date
    )
}

fn feed(items: &[String]) -> String {
    format!(
        "<?xml version=\"1.0\"?><rss version=\"2.0\"><channel><title>T</title><link>http://example.com</link><description>D</description>{}</channel></rss>",
        items.concat()
    )
}

fn titles(articles: &[Article]) -> Vec<String> {
    articles.iter().map(|a| a.title.clone()).collect()
}

#[test]
fn freshness_boundary() {
    let edge = UtcInstant { secs: NOW.secs - 86400, nanos: 0 };
    assert!(is_fresh(edge, NOW, DEFAULT_FRESHNESS_SECS));
    let a_nanosecond_later = UtcInstant { secs: NOW.secs, nanos: 1 };
    assert!(!is_fresh(edge, a_nanosecond_later, DEFAULT_FRESHNESS_SECS));
    let stale = UtcInstant { secs: NOW.secs - 86401, nanos: 0 };
    assert!(!is_fresh(stale, NOW, DEFAULT_FRESHNESS_SECS));
    let future = UtcInstant { secs: NOW.secs + 3600, nanos: 0 };
    assert!(is_fresh(future, NOW, DEFAULT_FRESHNESS_SECS));
}

#[test]
fn source_keeps_fresh_items_only() {
    let body = feed(&[
        item("Fresh one", "http://a/1", "Wed, 18 Feb 2015 10:00:00 +0200"),
        item("At the edge", "http://a/2", "Tue, 17 Feb 2015 23:16:09 GMT"),
        item("Just too old", "http://a/3", "Tue, 17 Feb 2015 23:16:08 GMT"),
        item("No date", "http://a/4", "not a date"),
    ]);
    let articles = fetch_source(&body, NOW, DEFAULT_FRESHNESS_SECS).unwrap();
    assert_eq!(titles(&articles), vec!["Fresh one", "At the edge"]);
    assert_eq!(articles[0].source, "http://a/1");
    assert_eq!(articles[0].description, "About Fresh one");
    assert_eq!(articles[0].date, "Wed, 18 Feb 2015 10:00:00 +0200");
    assert!(articles[0].content.is_empty());
}

#[test]
fn source_fills_defaults() {
    let body = feed(&[
        "<item><pubDate>Wed, 18 Feb 2015 20:00:00 GMT</pubDate></item>".to_string(),
        "<item><title></title><pubDate>Wed, 18 Feb 2015 20:00:00 GMT</pubDate></item>".to_string(),
    ]);
    let articles = fetch_source(&body, NOW, DEFAULT_FRESHNESS_SECS).unwrap();
    assert_eq!(articles.len(), 2);
    assert_eq!(articles[1].title, "Untitled");
    assert_eq!(articles[0].title, "Untitled");
    assert_eq!(articles[0].description, "No description available");
    assert_eq!(articles[0].source, "");
}

#[test]
fn malformed_source_is_an_error() {
    assert_eq!(fetch_source("this is not xml", NOW, DEFAULT_FRESHNESS_SECS).unwrap_err(), FeedError::MalformedFeed);
}

#[test]
fn three_sources_scenario() {
    let first = feed(&[
        item("Alpha", "http://a/1", "Wed, 18 Feb 2015 20:00:00 GMT"),
        item("Beta", "http://a/2", "Wed, 18 Feb 2015 21:00:00 GMT"),
        item("Stale", "http://a/3", "Mon, 16 Feb 2015 12:00:00 GMT"),
    ]);
    let third = feed(&[item("Alpha", "http://c/1", "Wed, 18 Feb 2015 22:00:00 GMT")]);
    let bodies = vec![Some(first), None, Some(third)];
    let articles = gather_news(&bodies, NOW, DEFAULT_FRESHNESS_SECS);
    assert_eq!(titles(&articles), vec!["Alpha", "Beta"]);
    assert_eq!(articles[0].source, "http://a/1");
}

#[test]
fn overlapping_titles_surface_once() {
    let a = feed(&[
        item("Same", "http://a/1", "Wed, 18 Feb 2015 20:00:00 GMT"),
        item("Same", "http://a/2", "Wed, 18 Feb 2015 20:30:00 GMT"),
        item("Other", "http://a/3", "Wed, 18 Feb 2015 20:40:00 GMT"),
    ]);
    let b = feed(&[
        item("Other", "http://b/1", "Wed, 18 Feb 2015 21:00:00 GMT"),
        item("New", "http://b/2", "Wed, 18 Feb 2015 21:30:00 GMT"),
    ]);
    let bodies = vec![Some(a), Some("garbage".to_string()), Some(b)];
    let articles = gather_news(&bodies, NOW, DEFAULT_FRESHNESS_SECS);
    assert_eq!(titles(&articles), vec!["Same", "Other", "New"]);
    assert_eq!(articles[0].source, "http://a/1");
}

#[test]
fn fetch_news_uses_current_time() {
    let body = feed(&[
        item("Undated", "http://f/1", "no date here"),
        item("Far future", "http://f/2", "Tue, 01 Jan 2999 00:00:00 GMT"),
        item("Long ago", "http://f/3", "Sat, 01 Jan 2000 00:00:00 GMT"),
    ]);
    let articles = fetch_news(&vec![Some(body)], DEFAULT_FRESHNESS_SECS);
    assert_eq!(titles(&articles), vec!["Far future"]);
}

#[test]
fn registry_records_titles() {
    let mut registry = DedupRegistry::new();
    assert!(!registry.contains("x"));
    assert!(registry.insert("x"));
    assert!(!registry.insert("x"));
    assert!(registry.contains("x"));
    let batch = vec![
        Article { title: "x".into(), content: String::new(), source: "1".into(), date: String::new(), description: String::new() },
        Article { title: "y".into(), content: String::new(), source: "2".into(), date: String::new(), description: String::new() },
        Article { title: "y".into(), content: String::new(), source: "3".into(), date: String::new(), description: String::new() },
    ];
    let kept = registry.let_through(batch);
    assert_eq!(titles(&kept), vec!["y"]);
    assert_eq!(kept[0].source, "2");
    assert!(registry.contains("y"));
}
