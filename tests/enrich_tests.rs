use news_digest::enrich::{content_from_paragraphs, enrich_all, fetch_article, scrape_content, MAX_CONTENT_CHARS};
use news_digest::types::Article;

fn article(title: &str, link: &str) -> Article {
    Article {
        title: title.to_string(),
        content: String::new(),
        source: link.to_string(),
        date: "d".to_string(),
        description: format!("about {}", title),
    }
}

#[test]
fn scrape_joins_article_paragraphs() {
    let html = "<html><body><p>menu</p><article><h1>H</h1><p>First <b>bold</b> part.</p><div><p>Second.</p></div></article><p>footer</p></body></html>";
    assert_eq!(scrape_content(html), "First bold part. Second.");
    assert_eq!(scrape_content("<html><body><p>no article</p></body></html>"), "");
}

#[test]
fn content_truncates_multibyte_text() {
    let long: String = std::iter::repeat('ü').take(2000).collect();
    let content = content_from_paragraphs(&vec![long]);
    assert_eq!(content.chars().count(), MAX_CONTENT_CHARS);
    assert!(content.chars().all(|c| c == 'ü'));
    let html = format!("<article><p>{}</p></article>", std::iter::repeat("日").take(1500).collect::<String>());
    assert_eq!(scrape_content(&html).chars().count(), 1024);
}

#[test]
fn fetch_article_builds_enriched_article() {
    let a = fetch_article("T", "http://x/1", "D", "<article><p>one</p><p>two</p></article>");
    assert_eq!(a.title, "T");
    assert_eq!(a.source, "http://x/1");
    assert_eq!(a.description, "D");
    assert_eq!(a.content, "one two");
    assert_eq!(a.date, "");
}

#[test]
fn enrich_drops_missing_links_and_failures() {
    let articles = vec![article("a", "http://a"), article("b", ""), article("c", "http://c"), article("d", "http://d")];
    assert!(articles[0].has_link());
    assert!(!articles[1].has_link());
    let pages = vec![
        Some("<article><p>A body</p></article>".to_string()),
        Some("<article><p>ignored</p></article>".to_string()),
        None,
        Some("<article><p>D body</p></article>".to_string()),
    ];
    let out = enrich_all(&articles, &pages);
    assert_eq!(out.len(), 2);
    assert_eq!(out[0].title, "a");
    assert_eq!(out[0].content, "A body");
    assert_eq!(out[1].title, "d");
    assert_eq!(out[1].content, "D body");
    assert_eq!(out[1].description, "about d");
}
