//! The chunked summariser's logic: the digest text handed to it, the check
//! on each summarisation reply, and the weather wording.
use vstd::prelude::*;
use crate::types::{Article, ArticleText, article_views};

verus! {

/// Most characters of digest text sent in one summarisation request.
pub const MAX_CHUNK_CHARS: usize = 10000;

/// The block of digest text for one article.
pub open spec fn block_spec(a: ArticleText) -> Seq<char> {
    "Title: "@ + a.title + "\nDescription: "@ + a.description + "\nContent: "@ + a.content
        + "\n---\n"@
}

/// The digest text: the articles' blocks, one after the other.
pub open spec fn digest_spec(arts: Seq<ArticleText>) -> Seq<char>
    decreases arts.len(),
{
    if arts.len() == 0 {
        Seq::empty()
    } else {
        digest_spec(arts.drop_last()) + block_spec(arts.last())
    }
}

/// The block of digest text for one article.
pub fn article_block(a: &Article) -> (r: String)
    ensures
        r@ == block_spec(a@),
{
    let mut s = String::from_str("Title: ");
    s.append(a.title.as_str());
    s.append("\nDescription: ");
    s.append(a.description.as_str());
    s.append("\nContent: ");
    s.append(a.content.as_str());
    s.append("\n---\n");
    s
}

/// The digest text of a list of articles.
pub fn digest_text(articles: &Vec<Article>) -> (r: String)
    ensures
        r@ == digest_spec(article_views(articles@)),
{
    let mut out = String::new();
    let mut i: usize = 0;
    while i < articles.len()
        invariant
            i <= articles.len(),
            out@ == digest_spec(article_views(articles@.subrange(0, i as int))),
        decreases articles.len() - i,
    {
        let ghost pre = article_views(articles@.subrange(0, i as int));
        let ghost cur = article_views(articles@.subrange(0, i + 1));
        assert(cur.drop_last() =~= pre);
        assert(cur.last() == articles@[i as int]@);
        let b = article_block(&articles[i]);
        out.append(b.as_str());
        i = i + 1;
    }
    assert(articles@.subrange(0, i as int) =~= articles@);
    out
}

/// Why a summarisation request failed.
#[derive(Clone, Copy, Debug, PartialEq, Eq, Structural)]
pub enum SummaryError {
    /// The service answered with a status other than success.
    Status(u16),
    /// The reply held no text, or an empty one.
    MissingContent,
}

/// A success status (2xx).
pub open spec fn is_success(status: u16) -> bool {
    200 <= status && status < 300
}

/// Checks a summarisation reply: its status, and the text extracted from
/// its body, if any.
pub fn check_summary_reply(status: u16, content: Option<String>) -> (r: Result<String, SummaryError>)
    ensures
        !is_success(status) ==> r == Err::<String, SummaryError>(SummaryError::Status(status)),
        is_success(status) ==> match content {
            Some(c) => if c@.len() > 0 {
                r is Ok && r->Ok_0@ == c@
            } else {
                r == Err::<String, SummaryError>(SummaryError::MissingContent)
            },
            None => r == Err::<String, SummaryError>(SummaryError::MissingContent),
        },
{
    if status < 200 || status >= 300 {
        return Err(SummaryError::Status(status));
    }
    match content {
        Some(c) => if c.as_str().is_empty() {
            Err(SummaryError::MissingContent)
        } else {
            Ok(c)
        },
        None => Err(SummaryError::MissingContent),
    }
}

/// The wording of a WMO weather code.
pub open spec fn weather_label(code: u8) -> Seq<char> {
    if code == 0 {
        "Clear sky"@
    } else if 1 <= code <= 3 {
        "Partly cloudy"@
    } else if code == 45 || code == 48 {
        "Foggy"@
    } else if 51 <= code <= 57 {
        "Drizzle"@
    } else if 61 <= code <= 67 {
        "Rain"@
    } else if 71 <= code <= 77 {
        "Snow"@
    } else if 80 <= code <= 86 {
        "Showers"@
    } else if 95 <= code <= 99 {
        "Thunderstorm"@
    } else {
        "Unknown"@
    }
}

/// The wording of a WMO weather code.
pub fn weather_description(code: u8) -> (r: &'static str)
    ensures
        r@ == weather_label(code),
{
    if code == 0 {
        "Clear sky"
    } else if 1 <= code && code <= 3 {
        "Partly cloudy"
    } else if code == 45 || code == 48 {
        "Foggy"
    } else if 51 <= code && code <= 57 {
        "Drizzle"
    } else if 61 <= code && code <= 67 {
        "Rain"
    } else if 71 <= code && code <= 77 {
        "Snow"
    } else if 80 <= code && code <= 86 {
        "Showers"
    } else if 95 <= code && code <= 99 {
        "Thunderstorm"
    } else {
        "Unknown"
    }
}

} // verus!
