//! The feed fetcher's logic: reading a syndication feed, keeping the entries
//! published within the freshness window, and letting each title through
//! once per run.
use vstd::prelude::*;
use crate::dedup::{first_seen_spec, lemma_first_seen_concat, lemma_first_seen_unique, DedupRegistry};
use crate::types::{Article, ArticleText, article_views};

verus! {

/// Default freshness window: one day, in seconds.
pub const DEFAULT_FRESHNESS_SECS: u64 = 86400;

/// Nanoseconds in a second.
pub const NANOS_PER_SEC: i128 = 1_000_000_000;

/// A point in time, in UTC: whole seconds since the Unix epoch and the
/// nanoseconds past them.
#[derive(Clone, Copy, Debug, PartialEq, Eq, Structural)]
pub struct UtcInstant {
    pub secs: i64,
    pub nanos: u32,
}

/// Nanoseconds since the Unix epoch.
pub open spec fn instant_nanos(t: UtcInstant) -> int {
    t.secs * 1_000_000_000 + t.nanos
}

/// An item published at `published` is fresh at `now` when its age is at
/// most the window; an age equal to the window is still fresh.
pub open spec fn fresh_spec(published: UtcInstant, now: UtcInstant, window_secs: u64) -> bool {
    instant_nanos(now) - instant_nanos(published) <= window_secs * 1_000_000_000
}

/// Whether an item published at `published` is fresh at `now`.
pub fn is_fresh(published: UtcInstant, now: UtcInstant, window_secs: u64) -> (r: bool)
    ensures
        r == fresh_spec(published, now, window_secs),
{
    let p: i128 = published.secs as i128 * NANOS_PER_SEC + published.nanos as i128;
    let n: i128 = now.secs as i128 * NANOS_PER_SEC + now.nanos as i128;
    let w: i128 = window_secs as i128 * NANOS_PER_SEC;
    n - p <= w
}

/// A feed entry's optional fields as text.
pub struct EntryText {
    pub title: Option<Seq<char>>,
    pub link: Option<Seq<char>>,
    pub description: Option<Seq<char>>,
    pub pub_date: Option<Seq<char>>,
}

/// A feed entry as the feed gives it.
#[derive(Clone, Debug)]
pub struct FeedEntry {
    pub title: Option<String>,
    pub link: Option<String>,
    pub description: Option<String>,
    pub pub_date: Option<String>,
}

/// The text of an optional string.
pub open spec fn opt_view(o: Option<String>) -> Option<Seq<char>> {
    match o {
        Some(s) => Some(s@),
        None => None,
    }
}

impl View for FeedEntry {
    type V = EntryText;

    open spec fn view(&self) -> EntryText {
        EntryText {
            title: opt_view(self.title),
            link: opt_view(self.link),
            description: opt_view(self.description),
            pub_date: opt_view(self.pub_date),
        }
    }
}

/// The views of a list of entries.
pub open spec fn entry_views(v: Seq<FeedEntry>) -> Seq<EntryText> {
    v.map_values(|e: FeedEntry| e@)
}

/// The entries of an RSS document, in document order, or none when the
/// document is not a readable feed.
pub uninterp spec fn parsed_feed(body: Seq<char>) -> Option<Seq<EntryText>>;

#[verifier::external_type_specification]
#[verifier::external_body]
pub struct ExRssError(rss::Error);

/// Relies on `rss::Channel::read_from` and the `Item` accessors `title`,
/// `link`, `description` and `pub_date`: the parse depends on the document
/// alone and lists the items in document order.
#[verifier::external_body]
fn read_feed(body: &str) -> (r: Result<Vec<FeedEntry>, rss::Error>)
    ensures
        match parsed_feed(body@) {
            Some(es) => r is Ok && entry_views(r->Ok_0@) == es,
            None => r is Err,
        },
{
    match rss::Channel::read_from(body.as_bytes()) {
        Ok(channel) => Ok(channel.items().iter().map(|item| FeedEntry {
            title: item.title().map(String::from),
            link: item.link().map(String::from),
            description: item.description().map(String::from),
            pub_date: item.pub_date().map(String::from),
        }).collect()),
        Err(e) => Err(e),
    }
}

/// The instant an RFC 2822 date-time denotes, or none when it does not
/// parse.
pub uninterp spec fn rfc2822_instant(s: Seq<char>) -> Option<UtcInstant>;

#[verifier::external_type_specification]
#[verifier::external_body]
pub struct ExParseError(chrono::ParseError);

/// Relies on `chrono::DateTime::parse_from_rfc2822` and the UTC timestamp
/// of its result: both depend on the text alone.
#[verifier::external_body]
fn parse_rfc2822(s: &str) -> (r: Result<UtcInstant, chrono::ParseError>)
    ensures
        match rfc2822_instant(s@) {
            Some(t) => r == Ok::<UtcInstant, chrono::ParseError>(t),
            None => r is Err,
        },
{
    match chrono::DateTime::parse_from_rfc2822(s) {
        Ok(d) => Ok(UtcInstant { secs: d.timestamp(), nanos: d.timestamp_subsec_nanos() }),
        Err(e) => Err(e),
    }
}

/// Relies on `chrono::Utc::now`: the current time, of which nothing is
/// promised.
#[verifier::external_body]
fn utc_now() -> (r: UtcInstant) {
    let now = chrono::Utc::now();
    UtcInstant { secs: now.timestamp(), nanos: now.timestamp_subsec_nanos() }
}

/// Why a feed contributed nothing.
#[derive(Clone, Copy, Debug, PartialEq, Eq, Structural)]
pub enum FeedError {
    /// The body is not a readable RSS document.
    MalformedFeed,
}

/// An entry is kept when it has a publication date that parses and is fresh.
pub open spec fn entry_kept(e: EntryText, now: UtcInstant, window_secs: u64) -> bool {
    match e.pub_date {
        Some(d) => match rfc2822_instant(d) {
            Some(t) => fresh_spec(t, now, window_secs),
            None => false,
        },
        None => false,
    }
}

/// `o`'s text, or `dflt` when absent.
pub open spec fn or_default(o: Option<Seq<char>>, dflt: Seq<char>) -> Seq<char> {
    match o {
        Some(s) => s,
        None => dflt,
    }
}

/// `o`'s text when present and non-empty, else `dflt`.
pub open spec fn nonempty_or(o: Option<Seq<char>>, dflt: Seq<char>) -> Seq<char> {
    match o {
        Some(s) => if s.len() > 0 {
            s
        } else {
            dflt
        },
        None => dflt,
    }
}

/// The article made of an entry, with its content still empty; an entry
/// without a title, or with an empty one, is called "Untitled".
pub open spec fn article_of(e: EntryText) -> ArticleText {
    ArticleText {
        title: nonempty_or(e.title, "Untitled"@),
        content: Seq::empty(),
        source: or_default(e.link, Seq::empty()),
        date: or_default(e.pub_date, Seq::empty()),
        description: or_default(e.description, "No description available"@),
    }
}

/// The articles of the kept entries, in entry order.
pub open spec fn fresh_articles_spec(es: Seq<EntryText>, now: UtcInstant, window_secs: u64) -> Seq<ArticleText>
    decreases es.len(),
{
    if es.len() == 0 {
        Seq::empty()
    } else {
        let rest = fresh_articles_spec(es.drop_last(), now, window_secs);
        if entry_kept(es.last(), now, window_secs) {
            rest.push(article_of(es.last()))
        } else {
            rest
        }
    }
}

/// Text of an optional field, or a default.
fn text_or(o: &Option<String>, dflt: &str) -> (r: String)
    ensures
        r@ == or_default(opt_view(*o), dflt@),
{
    match o {
        Some(s) => s.clone(),
        None => String::from_str(dflt),
    }
}

/// The article made of an entry.
pub fn entry_to_article(e: &FeedEntry) -> (r: Article)
    ensures
        r@ == article_of(e@),
{
    let source = match &e.link {
        Some(s) => s.clone(),
        None => String::new(),
    };
    let date = match &e.pub_date {
        Some(s) => s.clone(),
        None => String::new(),
    };
    let title = match &e.title {
        Some(t) => if t.as_str().is_empty() {
            String::from_str("Untitled")
        } else {
            t.clone()
        },
        None => String::from_str("Untitled"),
    };
    Article {
        title,
        content: String::new(),
        source,
        date,
        description: text_or(&e.description, "No description available"),
    }
}

/// Whether an entry is kept.
pub fn keep_entry(e: &FeedEntry, now: UtcInstant, window_secs: u64) -> (r: bool)
    ensures
        r == entry_kept(e@, now, window_secs),
{
    match &e.pub_date {
        Some(d) => match parse_rfc2822(d.as_str()) {
            Ok(t) => is_fresh(t, now, window_secs),
            Err(_) => false,
        },
        None => false,
    }
}

/// The articles of the fresh entries, in entry order.
pub fn select_fresh(entries: &Vec<FeedEntry>, now: UtcInstant, window_secs: u64) -> (r: Vec<Article>)
    ensures
        article_views(r@) == fresh_articles_spec(entry_views(entries@), now, window_secs),
{
    let mut out: Vec<Article> = Vec::new();
    let mut i: usize = 0;
    while i < entries.len()
        invariant
            i <= entries.len(),
            article_views(out@) == fresh_articles_spec(
                entry_views(entries@.subrange(0, i as int)),
                now,
                window_secs,
            ),
        decreases entries.len() - i,
    {
        let ghost before = out@;
        let ghost pre = entry_views(entries@.subrange(0, i as int));
        let ghost cur = entry_views(entries@.subrange(0, i + 1));
        assert(cur.drop_last() =~= pre);
        assert(cur.last() == entries@[i as int]@);
        if keep_entry(&entries[i], now, window_secs) {
            out.push(entry_to_article(&entries[i]));
            assert(article_views(out@) =~= article_views(before).push(out@[before.len() as int]@));
        }
        i = i + 1;
    }
    assert(entries@.subrange(0, i as int) =~= entries@);
    out
}

/// The fresh articles of one feed body read at `now`.
pub fn fetch_source(body: &str, now: UtcInstant, window_secs: u64) -> (r: Result<Vec<Article>, FeedError>)
    ensures
        match parsed_feed(body@) {
            Some(es) => r is Ok && article_views(r->Ok_0@) == fresh_articles_spec(es, now, window_secs),
            None => r == Err::<Vec<Article>, FeedError>(FeedError::MalformedFeed),
        },
{
    match read_feed(body) {
        Ok(entries) => Ok(select_fresh(&entries, now, window_secs)),
        Err(_) => Err(FeedError::MalformedFeed),
    }
}


/// The text of each fetched body, if any.
pub open spec fn body_views(bodies: Seq<Option<String>>) -> Seq<Option<Seq<char>>> {
    bodies.map_values(|b: Option<String>| opt_view(b))
}

/// The fresh articles one source offers: none when it could not be fetched
/// or its body is not a feed.
pub open spec fn source_articles(body: Option<Seq<char>>, now: UtcInstant, window_secs: u64) -> Seq<ArticleText> {
    match body {
        Some(b) => match parsed_feed(b) {
            Some(es) => fresh_articles_spec(es, now, window_secs),
            None => Seq::empty(),
        },
        None => Seq::empty(),
    }
}

/// The fresh articles of all sources, source after source.
pub open spec fn candidates_spec(bodies: Seq<Option<Seq<char>>>, now: UtcInstant, window_secs: u64) -> Seq<ArticleText>
    decreases bodies.len(),
{
    if bodies.len() == 0 {
        Seq::empty()
    } else {
        candidates_spec(bodies.drop_last(), now, window_secs) + source_articles(
            bodies.last(),
            now,
            window_secs,
        )
    }
}

/// The run's candidate articles: the fresh ones of all sources, each title
/// once, the first source to offer it winning.
pub open spec fn news_spec(bodies: Seq<Option<Seq<char>>>, now: UtcInstant, window_secs: u64) -> Seq<ArticleText> {
    first_seen_spec(Set::empty(), candidates_spec(bodies, now, window_secs)).0
}

/// Builds the run's candidate articles from the sources' bodies, in source
/// order; a source that failed (`None`) or whose body is not a feed
/// contributes nothing.
pub fn gather_news(bodies: &Vec<Option<String>>, now: UtcInstant, window_secs: u64) -> (r: Vec<Article>)
    ensures
        article_views(r@) == news_spec(body_views(bodies@), now, window_secs),
{
    let mut registry = DedupRegistry::new();
    let mut out: Vec<Article> = Vec::new();
    let mut i: usize = 0;
    while i < bodies.len()
        invariant
            i <= bodies.len(),
            (article_views(out@), registry@) == first_seen_spec(
                Set::empty(),
                candidates_spec(body_views(bodies@.subrange(0, i as int)), now, window_secs),
            ),
        decreases bodies.len() - i,
    {
        let ghost pre = body_views(bodies@.subrange(0, i as int));
        let ghost cur = body_views(bodies@.subrange(0, i + 1));
        assert(cur.drop_last() =~= pre);
        assert(cur.last() == opt_view(bodies@[i as int]));
        let batch: Vec<Article> = match &bodies[i] {
            Some(b) => match fetch_source(b.as_str(), now, window_secs) {
                Ok(arts) => arts,
                Err(_) => Vec::new(),
            },
            None => Vec::new(),
        };
        assert(article_views(batch@) =~= source_articles(cur.last(), now, window_secs));
        let ghost out0 = article_views(out@);
        let ghost reg0 = registry@;
        let kept = registry.let_through(batch);
        proof {
            lemma_first_seen_concat(
                Set::empty(),
                candidates_spec(pre, now, window_secs),
                source_articles(cur.last(), now, window_secs),
            );
        }
        let ghost kept_views = article_views(kept@);
        let mut kept = kept;
        out.append(&mut kept);
        assert(article_views(out@) =~= out0 + kept_views);
        i = i + 1;
    }
    assert(bodies@.subrange(0, i as int) =~= bodies@);
    out
}

/// Fetches the run's candidate articles as of now.
pub fn fetch_news(bodies: &Vec<Option<String>>, window_secs: u64) -> (r: Vec<Article>)
    ensures
        exists|now: UtcInstant| article_views(r@) == news_spec(body_views(bodies@), now, window_secs),
{
    let now = utc_now();
    gather_news(bodies, now, window_secs)
}

/// No two candidate articles of a run share a title, however the sources'
/// titles overlap.
pub proof fn lemma_news_titles_unique(bodies: Seq<Option<Seq<char>>>, now: UtcInstant, window_secs: u64)
    ensures
        forall|i: int, j: int|
            0 <= i < news_spec(bodies, now, window_secs).len() && 0 <= j < news_spec(
                bodies,
                now,
                window_secs,
            ).len() && i != j ==> #[trigger] news_spec(bodies, now, window_secs)[i].title
                != #[trigger] news_spec(bodies, now, window_secs)[j].title,
{
    lemma_first_seen_unique(Set::empty(), candidates_spec(bodies, now, window_secs));
}

/// `a` is the article of a kept entry of `es`.
pub open spec fn from_kept_entry(es: Seq<EntryText>, now: UtcInstant, window_secs: u64, a: ArticleText) -> bool {
    exists|i: int| 0 <= i < es.len() && entry_kept(es[i], now, window_secs) && a == article_of(es[i])
}

/// A feed yields exactly its fresh entries: every article comes from an
/// entry whose date parses and lies within the window (its edge included),
/// and every such entry gives an article.
pub proof fn lemma_fetch_keeps_exactly_fresh(es: Seq<EntryText>, now: UtcInstant, window_secs: u64)
    ensures
        forall|k: int|
            0 <= k < fresh_articles_spec(es, now, window_secs).len() ==> from_kept_entry(
                es,
                now,
                window_secs,
                #[trigger] fresh_articles_spec(es, now, window_secs)[k],
            ),
        forall|i: int|
            0 <= i < es.len() && #[trigger] entry_kept(es[i], now, window_secs) ==> fresh_articles_spec(
                es,
                now,
                window_secs,
            ).contains(article_of(es[i])),
    decreases es.len(),
{
    if es.len() > 0 {
        let init = es.drop_last();
        lemma_fetch_keeps_exactly_fresh(init, now, window_secs);
        let rest = fresh_articles_spec(init, now, window_secs);
        let out = fresh_articles_spec(es, now, window_secs);
        assert forall|k: int| 0 <= k < out.len() implies from_kept_entry(es, now, window_secs, #[trigger] out[k]) by {
            if k < rest.len() {
                assert(from_kept_entry(init, now, window_secs, rest[k]));
                let i = choose|i: int|
                    0 <= i < init.len() && entry_kept(init[i], now, window_secs) && rest[k]
                        == article_of(init[i]);
                assert(es[i] == init[i]);
                assert(out[k] == rest[k]);
            } else {
                let last = es.len() - 1;
                assert(es[last] == es.last());
                assert(entry_kept(es.last(), now, window_secs));
                assert(out[k] == article_of(es[last]));
            }
        }
        assert forall|i: int| 0 <= i < es.len() && #[trigger] entry_kept(es[i], now, window_secs) implies out.contains(article_of(es[i])) by {
            if i < init.len() {
                assert(init[i] == es[i]);
                assert(entry_kept(init[i], now, window_secs));
                let k = choose|k: int| 0 <= k < rest.len() && rest[k] == article_of(init[i]);
                assert(out[k] == rest[k]);
            } else {
                assert(out[out.len() - 1] == article_of(es.last()));
            }
        }
    }
}

/// Every candidate article has a non-empty title.
pub proof fn lemma_candidate_titles_nonempty(bodies: Seq<Option<Seq<char>>>, now: UtcInstant, window_secs: u64)
    ensures
        forall|i: int|
            0 <= i < news_spec(bodies, now, window_secs).len() ==> #[trigger] news_spec(
                bodies,
                now,
                window_secs,
            )[i].title.len() > 0,
{
    lemma_candidates_titled(bodies, now, window_secs);
    lemma_first_seen_keeps_titled(Set::empty(), candidates_spec(bodies, now, window_secs));
}

/// A sequence of articles whose titles are all non-empty.
pub open spec fn all_titled(arts: Seq<ArticleText>) -> bool {
    forall|i: int| 0 <= i < arts.len() ==> (#[trigger] arts[i]).title.len() > 0
}

proof fn lemma_fresh_titled(es: Seq<EntryText>, now: UtcInstant, window_secs: u64)
    ensures
        all_titled(fresh_articles_spec(es, now, window_secs)),
    decreases es.len(),
{
    reveal_strlit("Untitled");
    if es.len() > 0 {
        lemma_fresh_titled(es.drop_last(), now, window_secs);
    }
}

proof fn lemma_candidates_titled(bodies: Seq<Option<Seq<char>>>, now: UtcInstant, window_secs: u64)
    ensures
        all_titled(candidates_spec(bodies, now, window_secs)),
    decreases bodies.len(),
{
    if bodies.len() > 0 {
        lemma_candidates_titled(bodies.drop_last(), now, window_secs);
        let a = candidates_spec(bodies.drop_last(), now, window_secs);
        let b = source_articles(bodies.last(), now, window_secs);
        match bodies.last() {
            Some(x) => match parsed_feed(x) {
                Some(es) => lemma_fresh_titled(es, now, window_secs),
                None => {},
            },
            None => {},
        }
        assert forall|i: int| 0 <= i < (a + b).len() implies (#[trigger] (a + b)[i]).title.len() > 0 by {
            if i < a.len() {
                assert((a + b)[i] == a[i]);
            } else {
                assert((a + b)[i] == b[i - a.len()]);
            }
        }
    }
}

proof fn lemma_first_seen_keeps_titled(seen: Set<Seq<char>>, arts: Seq<ArticleText>)
    requires
        all_titled(arts),
    ensures
        all_titled(first_seen_spec(seen, arts).0),
    decreases arts.len(),
{
    if arts.len() > 0 {
        assert(all_titled(arts.drop_last()));
        lemma_first_seen_keeps_titled(seen, arts.drop_last());
        assert(arts.last() == arts[arts.len() - 1]);
    }
}

/// The window's edge counts as fresh; anything older is stale.
pub proof fn lemma_window_edge(published: UtcInstant, now: UtcInstant, window_secs: u64)
    ensures
        instant_nanos(now) - instant_nanos(published) == window_secs * 1_000_000_000 ==> fresh_spec(
            published,
            now,
            window_secs,
        ),
        instant_nanos(now) - instant_nanos(published) > window_secs * 1_000_000_000 ==> !fresh_spec(
            published,
            now,
            window_secs,
        ),
{
}

} // verus!
