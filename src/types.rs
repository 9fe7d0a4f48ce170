//! The pipeline's data: feed items, articles and configuration.
use vstd::prelude::*;

verus! {

/// A feed entry as plain text fields.
#[derive(Clone, Debug)]
pub struct RssItem {
    pub title: String,
    pub description: String,
    pub link: String,
    pub date: String,
}

/// An article moving through the pipeline; `content` stays empty until the
/// article is enriched.
#[derive(Clone, Debug)]
pub struct Article {
    pub title: String,
    pub content: String,
    pub source: String,
    pub date: String,
    pub description: String,
}

/// The text of an article's fields.
pub struct ArticleText {
    pub title: Seq<char>,
    pub content: Seq<char>,
    pub source: Seq<char>,
    pub date: Seq<char>,
    pub description: Seq<char>,
}

impl View for Article {
    type V = ArticleText;

    open spec fn view(&self) -> ArticleText {
        ArticleText {
            title: self.title@,
            content: self.content@,
            source: self.source@,
            date: self.date@,
            description: self.description@,
        }
    }
}

impl Article {
    /// A copy of the article.
    pub fn clone_article(&self) -> (r: Article)
        ensures
            r@ == self@,
    {
        Article {
            title: self.title.clone(),
            content: self.content.clone(),
            source: self.source.clone(),
            date: self.date.clone(),
            description: self.description.clone(),
        }
    }
}

/// The views of a list of articles.
pub open spec fn article_views(v: Seq<Article>) -> Seq<ArticleText> {
    v.map_values(|a: Article| a@)
}

/// A feed endpoint.
#[derive(Clone, Debug)]
pub struct Source {
    pub url: String,
}

/// Topic keywords and forbidden keywords, both in priority order.
#[derive(Clone, Debug)]
pub struct FilterConfig {
    pub categories: Vec<String>,
    pub banned: Vec<String>,
}

/// Run configuration.
#[derive(Clone, Debug)]
pub struct Config {
    pub news_sources: Vec<Source>,
    pub filter: FilterConfig,
    pub city: String,
    pub api_key: String,
    pub api_url: String,
    pub language: String,
}

/// A setting taken from the environment when present, else from the file.
pub open spec fn chosen(file_value: Seq<char>, env_value: Option<String>) -> Seq<char> {
    match env_value {
        Some(v) => v@,
        None => file_value,
    }
}

impl Config {
    /// Applies the secrets found in the environment, which take precedence
    /// over those of the configuration file.
    pub fn with_env_overrides(
        self,
        api_key: Option<String>,
        api_url: Option<String>,
        language: Option<String>,
    ) -> (r: Config)
        ensures
            r.api_key@ == chosen(self.api_key@, api_key),
            r.api_url@ == chosen(self.api_url@, api_url),
            r.language@ == chosen(self.language@, language),
            r.city@ == self.city@,
            r.news_sources@ == self.news_sources@,
            r.filter.categories@ == self.filter.categories@,
            r.filter.banned@ == self.filter.banned@,
    {
        let Config { news_sources, filter, city, api_key: file_key, api_url: file_url, language: file_language } = self;
        Config {
            news_sources,
            filter,
            city,
            api_key: match api_key {
                Some(v) => v,
                None => file_key,
            },
            api_url: match api_url {
                Some(v) => v,
                None => file_url,
            },
            language: match language {
                Some(v) => v,
                None => file_language,
            },
        }
    }
}

} // verus!
