//! The article enricher's logic: the visible text of an article page's
//! paragraphs, cut to a fixed number of characters.
use vstd::prelude::*;
use crate::text::{join_spec, join_strings, take_chars, take_spec, views};
use crate::types::{Article, ArticleText, article_views};

verus! {

/// Most characters of scraped content an article keeps.
pub const MAX_CONTENT_CHARS: usize = 1024;

/// Where an article's paragraphs are found in its page.
pub const PARAGRAPH_SELECTOR: &'static str = "article p";

/// The text of each element of an HTML document that a CSS selector
/// matches, in document order, or none when the selector does not parse.
pub uninterp spec fn selected_texts(html: Seq<char>, selector: Seq<char>) -> Option<Seq<Seq<char>>>;

/// Relies on `scraper::Selector::parse`, `scraper::Html::parse_document`,
/// `Html::select` and `ElementRef::text`: the matched elements' text, which
/// depends on the document and the selector alone.
#[verifier::external_body]
fn select_texts(html: &str, selector: &str) -> (r: Option<Vec<String>>)
    ensures
        match selected_texts(html@, selector@) {
            Some(ts) => r is Some && views(r->0@) == ts,
            None => r is None,
        },
{
    match scraper::Selector::parse(selector) {
        Ok(sel) => Some(
            scraper::Html::parse_document(html).select(&sel).map(|e| e.text().collect::<String>()).collect(),
        ),
        Err(_) => None,
    }
}

/// Article content made of its paragraphs: joined with single spaces and
/// cut to the content budget.
pub open spec fn content_spec(paragraphs: Seq<Seq<char>>) -> Seq<char> {
    take_spec(join_spec(paragraphs, " "@), MAX_CONTENT_CHARS as nat)
}

/// Content is the start of the joined paragraphs: all of them when they fit
/// the budget, else exactly the budget of whole characters.
pub proof fn lemma_content_budget(paragraphs: Seq<Seq<char>>)
    ensures
        ({
            let joined = join_spec(paragraphs, " "@);
            let c = content_spec(paragraphs);
            &&& c.len() == if joined.len() <= MAX_CONTENT_CHARS {
                joined.len()
            } else {
                MAX_CONTENT_CHARS as nat
            }
            &&& c == joined.subrange(0, c.len() as int)
        }),
{
    let joined = join_spec(paragraphs, " "@);
    if joined.len() <= MAX_CONTENT_CHARS {
        assert(joined.subrange(0, joined.len() as int) =~= joined);
    }
}

/// The paragraphs of an article page.
pub open spec fn page_paragraphs(html: Seq<char>) -> Seq<Seq<char>> {
    match selected_texts(html, PARAGRAPH_SELECTOR@) {
        Some(ts) => ts,
        None => Seq::empty(),
    }
}

/// Joins paragraphs with single spaces and keeps at most the content
/// budget of whole characters.
pub fn content_from_paragraphs(paragraphs: &Vec<String>) -> (r: String)
    ensures
        r@ == content_spec(views(paragraphs@)),
{
    let joined = join_strings(paragraphs, " ");
    take_chars(joined.as_str(), MAX_CONTENT_CHARS)
}

/// The content of an article page.
pub fn scrape_content(html: &str) -> (r: String)
    ensures
        r@ == content_spec(page_paragraphs(html@)),
{
    match select_texts(html, PARAGRAPH_SELECTOR) {
        Some(ps) => content_from_paragraphs(&ps),
        None => {
            let empty: Vec<String> = Vec::new();
            assert(views(empty@) =~= Seq::<Seq<char>>::empty());
            content_from_paragraphs(&empty)
        },
    }
}

/// The enriched article built from a page.
pub open spec fn enriched_spec(title: Seq<char>, link: Seq<char>, description: Seq<char>, html: Seq<char>) -> ArticleText {
    ArticleText {
        title,
        content: content_spec(page_paragraphs(html)),
        source: link,
        date: Seq::empty(),
        description,
    }
}

/// Builds the enriched article from the page fetched at `link`.
pub fn fetch_article(title: &str, link: &str, description: &str, html: &str) -> (r: Article)
    ensures
        r@ == enriched_spec(title@, link@, description@, html@),
{
    Article {
        title: String::from_str(title),
        content: scrape_content(html),
        source: String::from_str(link),
        date: String::new(),
        description: String::from_str(description),
    }
}

impl Article {
    /// Whether the article has a link to fetch its page from.
    pub fn has_link(&self) -> (r: bool)
        ensures
            r == (self.source@.len() > 0),
    {
        !self.source.as_str().is_empty()
    }
}

/// The enriched articles: those with a link whose page was fetched, in
/// order; an article without a link or whose fetch failed is dropped.
pub open spec fn enrich_all_spec(arts: Seq<ArticleText>, pages: Seq<Option<Seq<char>>>) -> Seq<ArticleText>
    decreases arts.len(),
{
    if arts.len() == 0 || pages.len() != arts.len() {
        Seq::empty()
    } else {
        let rest = enrich_all_spec(arts.drop_last(), pages.drop_last());
        let a = arts.last();
        match pages.last() {
            Some(html) => if a.source.len() > 0 {
                rest.push(enriched_spec(a.title, a.source, a.description, html))
            } else {
                rest
            },
            None => rest,
        }
    }
}

/// The text of each fetched page, if any.
pub open spec fn page_views(pages: Seq<Option<String>>) -> Seq<Option<Seq<char>>> {
    pages.map_values(|p: Option<String>| match p {
        Some(s) => Some(s@),
        None => None,
    })
}

/// Enriches each article from its fetched page (`pages[i]` for
/// `articles[i]`, `None` when the fetch failed or was not made).
pub fn enrich_all(articles: &Vec<Article>, pages: &Vec<Option<String>>) -> (r: Vec<Article>)
    requires
        pages.len() == articles.len(),
    ensures
        article_views(r@) == enrich_all_spec(article_views(articles@), page_views(pages@)),
{
    let mut out: Vec<Article> = Vec::new();
    let mut i: usize = 0;
    while i < articles.len()
        invariant
            pages.len() == articles.len(),
            i <= articles.len(),
            article_views(out@) == enrich_all_spec(
                article_views(articles@.subrange(0, i as int)),
                page_views(pages@.subrange(0, i as int)),
            ),
        decreases articles.len() - i,
    {
        let ghost before = out@;
        let ghost a_pre = article_views(articles@.subrange(0, i as int));
        let ghost a_cur = article_views(articles@.subrange(0, i + 1));
        let ghost p_pre = page_views(pages@.subrange(0, i as int));
        let ghost p_cur = page_views(pages@.subrange(0, i + 1));
        assert(a_cur.drop_last() =~= a_pre);
        assert(p_cur.drop_last() =~= p_pre);
        assert(a_cur.last() == articles@[i as int]@);
        let a = &articles[i];
        match &pages[i] {
            Some(html) => {
                assert(p_cur.last() == Some(html@));
                if a.has_link() {
                    let e = fetch_article(a.title.as_str(), a.source.as_str(), a.description.as_str(), html.as_str());
                    out.push(e);
                    assert(article_views(out@) =~= article_views(before).push(e@));
                }
            },
            None => {
                assert(p_cur.last() == None::<Seq<char>>);
            },
        }
        i = i + 1;
    }
    assert(articles@.subrange(0, i as int) =~= articles@);
    assert(pages@.subrange(0, i as int) =~= pages@);
    out
}


/// No two articles of `arts` share a title.
pub open spec fn titles_distinct(arts: Seq<ArticleText>) -> bool {
    forall|i: int, j: int|
        0 <= i < arts.len() && 0 <= j < arts.len() && i != j ==> #[trigger] arts[i].title
            != #[trigger] arts[j].title
}

/// Every enriched article carries the title of one of the input articles.
proof fn lemma_enriched_titles_from_input(arts: Seq<ArticleText>, pages: Seq<Option<Seq<char>>>)
    ensures
        forall|k: int|
            0 <= k < enrich_all_spec(arts, pages).len() ==> exists|i: int|
                0 <= i < arts.len() && (#[trigger] enrich_all_spec(arts, pages)[k]).title
                    == arts[i].title,
    decreases arts.len(),
{
    if arts.len() > 0 && pages.len() == arts.len() {
        lemma_enriched_titles_from_input(arts.drop_last(), pages.drop_last());
        let rest = enrich_all_spec(arts.drop_last(), pages.drop_last());
        let out = enrich_all_spec(arts, pages);
        assert forall|k: int| 0 <= k < out.len() implies exists|i: int|
            0 <= i < arts.len() && (#[trigger] out[k]).title == arts[i].title by {
            if k < rest.len() {
                assert(out[k] == rest[k]);
                let i = choose|i: int| 0 <= i < arts.drop_last().len() && rest[k].title == arts.drop_last()[i].title;
                assert(arts.drop_last()[i] == arts[i]);
            } else {
                assert(out[k].title == arts[arts.len() - 1].title);
            }
        }
    }
}

/// Enrichment keeps titles distinct: when no two candidates share a title,
/// no two enriched articles do.
pub proof fn lemma_enriched_titles_distinct(arts: Seq<ArticleText>, pages: Seq<Option<Seq<char>>>)
    requires
        titles_distinct(arts),
    ensures
        titles_distinct(enrich_all_spec(arts, pages)),
    decreases arts.len(),
{
    if arts.len() > 0 && pages.len() == arts.len() {
        let init = arts.drop_last();
        assert(titles_distinct(init)) by {
            assert forall|i: int, j: int| 0 <= i < init.len() && 0 <= j < init.len() && i != j implies #[trigger] init[i].title != #[trigger] init[j].title by {
                assert(init[i] == arts[i] && init[j] == arts[j]);
            }
        }
        lemma_enriched_titles_distinct(init, pages.drop_last());
        lemma_enriched_titles_from_input(init, pages.drop_last());
        let rest = enrich_all_spec(init, pages.drop_last());
        let out = enrich_all_spec(arts, pages);
        assert forall|i: int, j: int| 0 <= i < out.len() && 0 <= j < out.len() && i != j implies #[trigger] out[i].title != #[trigger] out[j].title by {
            if i < rest.len() && j < rest.len() {
                assert(out[i] == rest[i] && out[j] == rest[j]);
            } else if i < rest.len() {
                assert(out[i] == rest[i]);
                let m = choose|m: int| 0 <= m < init.len() && (#[trigger] rest[i]).title == init[m].title;
                assert(init[m] == arts[m]);
                assert(out[j].title == arts[arts.len() - 1].title);
            } else if j < rest.len() {
                assert(out[j] == rest[j]);
                let m = choose|m: int| 0 <= m < init.len() && (#[trigger] rest[j]).title == init[m].title;
                assert(init[m] == arts[m]);
                assert(out[i].title == arts[arts.len() - 1].title);
            }
        }
    }
}

} // verus!
