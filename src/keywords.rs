//! Keyword stages of the filter chain: the ban list, the category shortcut,
//! and the decision that combines them with the classifier's answer.
use vstd::prelude::*;
use crate::text::{contains_seq, occurs_at, lower_of, lowercase, str_contains, views};
use crate::types::FilterConfig;

verus! {

/// `k` without its trailing run of `s` characters.
pub open spec fn strip_trailing_s(k: Seq<char>) -> Seq<char>
    decreases k.len(),
{
    if k.len() > 0 && k.last() == 's' {
        strip_trailing_s(k.drop_last())
    } else {
        k
    }
}

/// The two forms a keyword matches: itself, and its singular (a keyword
/// ending in `s`) or plural (any other keyword).
pub open spec fn variants_spec(k: Seq<char>) -> Seq<Seq<char>> {
    if k.len() > 0 && k.last() == 's' {
        seq![k, strip_trailing_s(k)]
    } else {
        seq![k, k.push('s')]
    }
}

/// `v` occurs in the title or in the description.
pub open spec fn mentions(title: Seq<char>, description: Seq<char>, v: Seq<char>) -> bool {
    contains_seq(title, v) || contains_seq(description, v)
}

/// The title or the description mentions one of the forms of `k`.
pub open spec fn keyword_hit(title: Seq<char>, description: Seq<char>, k: Seq<char>) -> bool {
    mentions(title, description, variants_spec(k)[0]) || mentions(
        title,
        description,
        variants_spec(k)[1],
    )
}

/// Some keyword of `ks` is hit.
pub open spec fn any_keyword_hit(
    title: Seq<char>,
    description: Seq<char>,
    ks: Seq<Seq<char>>,
) -> bool {
    exists|i: int| 0 <= i < ks.len() && keyword_hit(title, description, #[trigger] ks[i])
}

/// The lowercase forms of a keyword list.
pub open spec fn lowered(ks: Seq<String>) -> Seq<Seq<char>> {
    ks.map_values(|k: String| lower_of(k@))
}

/// The two forms that `keyword` matches.
pub fn keyword_variants(keyword: &str) -> (r: Vec<String>)
    ensures
        views(r@) == variants_spec(keyword@),
{
    let n: usize = keyword.unicode_len();
    let mut v: Vec<String> = Vec::new();
    v.push(String::from_str(keyword));
    if n > 0 && keyword.get_char(n - 1) == 's' {
        let mut end: usize = n;
        assert(keyword@.subrange(0, n as int) =~= keyword@);
        while end > 0 && keyword.get_char(end - 1) == 's'
            invariant
                n == keyword@.len(),
                end <= n,
                keyword@.len() > 0 && keyword@.last() == 's',
                strip_trailing_s(keyword@) == strip_trailing_s(keyword@.subrange(0, end as int)),
            decreases end,
        {
            proof {
                let t = keyword@.subrange(0, end as int);
                assert(t.drop_last() =~= keyword@.subrange(0, end - 1));
            }
            end = end - 1;
        }
        let ghost t = keyword@.subrange(0, end as int);
        assert(strip_trailing_s(t) == t);
        v.push(String::from_str(keyword.substring_char(0, end)));
    } else {
        v.push(String::from_str(keyword).concat("s"));
        proof {
            reveal_strlit("s");
            assert(keyword@ + "s"@ =~= keyword@.push('s'));
        }
    }
    proof {
        if n > 0 {
            assert(keyword@.subrange(0, n as int) =~= keyword@);
        }
        assert(views(v@) =~= variants_spec(keyword@));
    }
    v
}

/// Whether the title or description mentions a form of `keyword`; all three
/// are taken as already lowercased.
pub fn keyword_mentioned(title: &str, description: &str, keyword: &str) -> (r: bool)
    ensures
        r == keyword_hit(title@, description@, keyword@),
{
    let vs = keyword_variants(keyword);
    assert(variants_spec(keyword@).len() == 2);
    assert(vs@.len() == 2);
    assert(vs@[0]@ == views(vs@)[0]);
    assert(vs@[1]@ == views(vs@)[1]);
    str_contains(title, vs[0].as_str()) || str_contains(description, vs[0].as_str())
        || str_contains(title, vs[1].as_str()) || str_contains(description, vs[1].as_str())
}

/// Whether the title or description mentions a form of any keyword of
/// `keywords`; all are taken as already lowercased.
pub fn mentions_any_keyword(title: &str, description: &str, keywords: &Vec<String>) -> (r: bool)
    ensures
        r == any_keyword_hit(title@, description@, views(keywords@)),
{
    let mut i: usize = 0;
    while i < keywords.len()
        invariant
            i <= keywords.len(),
            forall|j: int|
                0 <= j < i ==> !keyword_hit(title@, description@, #[trigger] views(keywords@)[j]),
        decreases keywords.len() - i,
    {
        if keyword_mentioned(title, description, keywords[i].as_str()) {
            assert(views(keywords@)[i as int] == keywords@[i as int]@);
            return true;
        }
        i = i + 1;
    }
    false
}

/// Lowercases every keyword of a list.
pub fn lowercase_all(ks: &Vec<String>) -> (r: Vec<String>)
    ensures
        views(r@) == lowered(ks@),
{
    let mut out: Vec<String> = Vec::new();
    let mut i: usize = 0;
    while i < ks.len()
        invariant
            i <= ks.len(),
            views(out@) == lowered(ks@.subrange(0, i as int)),
        decreases ks.len() - i,
    {
        let ghost before = out@;
        out.push(lowercase(ks[i].as_str()));
        assert(views(out@) =~= lowered(ks@.subrange(0, i + 1))) by {
            assert(views(out@) =~= views(before).push(out@[i as int]@));
            assert(lowered(ks@.subrange(0, i + 1)) =~= lowered(ks@.subrange(0, i as int)).push(
                lower_of(ks@[i as int]@),
            ));
        }
        i = i + 1;
    }
    assert(ks@.subrange(0, i as int) =~= ks@);
    out
}

/// The article passes the ban list: no banned keyword, nor its variant,
/// occurs in its title or description, case aside.
pub open spec fn passes_ban(title: Seq<char>, description: Seq<char>, cfg: FilterConfig) -> bool {
    !any_keyword_hit(lower_of(title), lower_of(description), lowered(cfg.banned@))
}

/// The article matches a category keyword, or its variant, case aside.
pub open spec fn matches_category(
    title: Seq<char>,
    description: Seq<char>,
    cfg: FilterConfig,
) -> bool {
    any_keyword_hit(lower_of(title), lower_of(description), lowered(cfg.categories@))
}

/// Ban stage: true when the article may go on.
pub fn bannedfilter(title: &str, description: &str, filter_config: &FilterConfig) -> (r: bool)
    ensures
        r == passes_ban(title@, description@, *filter_config),
{
    let t = lowercase(title);
    let d = lowercase(description);
    let banned = lowercase_all(&filter_config.banned);
    !mentions_any_keyword(t.as_str(), d.as_str(), &banned)
}

/// Category stage: true when a topic keyword settles acceptance.
pub fn category(title: &str, description: &str, filter_config: &FilterConfig) -> (r: bool)
    ensures
        r == matches_category(title@, description@, *filter_config),
{
    let t = lowercase(title);
    let d = lowercase(description);
    let categories = lowercase_all(&filter_config.categories);
    mentions_any_keyword(t.as_str(), d.as_str(), &categories)
}


/// Where the keyword stages leave an article.
#[derive(Clone, Copy, Debug, PartialEq, Eq, Structural)]
pub enum FilterStage {
    /// Rejected by the ban list; no later stage runs.
    Banned,
    /// Accepted by a category keyword; the classifier is not consulted.
    CategoryMatch,
    /// Passed the ban list without a category match: the classifier decides.
    NeedsClassifier,
}

/// The stage reached by an article.
pub open spec fn stage_spec(title: Seq<char>, description: Seq<char>, cfg: FilterConfig) -> FilterStage {
    if !passes_ban(title, description, cfg) {
        FilterStage::Banned
    } else if matches_category(title, description, cfg) {
        FilterStage::CategoryMatch
    } else {
        FilterStage::NeedsClassifier
    }
}

impl FilterStage {
    /// Whether an article at this stage survives the chain, given what the
    /// classifier answered (ignored unless the classifier decides).
    pub open spec fn survives_spec(self, classifier_answer: bool) -> bool {
        match self {
            FilterStage::Banned => false,
            FilterStage::CategoryMatch => true,
            FilterStage::NeedsClassifier => classifier_answer,
        }
    }

    /// Whether the classifier has to be asked.
    pub fn needs_classifier(&self) -> (r: bool)
        ensures
            r == (*self == FilterStage::NeedsClassifier),
    {
        match self {
            FilterStage::NeedsClassifier => true,
            _ => false,
        }
    }

    /// The chain's final decision at this stage.
    pub fn survives(&self, classifier_answer: bool) -> (r: bool)
        ensures
            r == self.survives_spec(classifier_answer),
    {
        match self {
            FilterStage::Banned => false,
            FilterStage::CategoryMatch => true,
            FilterStage::NeedsClassifier => classifier_answer,
        }
    }
}

/// Runs the keyword stages in order: the ban list first, then, only for an
/// article that passed it, the category keywords.
pub fn filter_stage(title: &str, description: &str, filter_config: &FilterConfig) -> (r: FilterStage)
    ensures
        r == stage_spec(title@, description@, *filter_config),
{
    if !bannedfilter(title, description, filter_config) {
        FilterStage::Banned
    } else if category(title, description, filter_config) {
        FilterStage::CategoryMatch
    } else {
        FilterStage::NeedsClassifier
    }
}

/// An article survives the chain exactly when it passes the ban list and
/// either matches a category or is accepted by the classifier; the
/// classifier is consulted only when neither keyword stage settled it.
pub proof fn lemma_chain_decision(
    title: Seq<char>,
    description: Seq<char>,
    cfg: FilterConfig,
    classifier_answer: bool,
)
    ensures
        stage_spec(title, description, cfg).survives_spec(classifier_answer) <==> passes_ban(
            title,
            description,
            cfg,
        ) && (matches_category(title, description, cfg) || classifier_answer),
        (stage_spec(title, description, cfg) == FilterStage::NeedsClassifier) <==> (passes_ban(
            title,
            description,
            cfg,
        ) && !matches_category(title, description, cfg)),
{
}

/// An article rejected by the ban list stops there: neither the category
/// stage nor the classifier is reached, and no answer can let it through.
pub proof fn lemma_ban_short_circuits(title: Seq<char>, description: Seq<char>, cfg: FilterConfig)
    requires
        !passes_ban(title, description, cfg),
    ensures
        stage_spec(title, description, cfg) == FilterStage::Banned,
        forall|answer: bool| !#[trigger] stage_spec(title, description, cfg).survives_spec(answer),
{
}

/// A keyword is hit whenever the title mentions it as it stands.
pub proof fn lemma_keyword_itself_hits(title: Seq<char>, description: Seq<char>, k: Seq<char>)
    requires
        contains_seq(title, k),
    ensures
        keyword_hit(title, description, k),
{
}

/// With "sport" among the banned keywords, a title that mentions "sport" or
/// "sports" in any letter case is rejected.
pub proof fn lemma_sport_is_banned(title: Seq<char>, description: Seq<char>, cfg: FilterConfig)
    requires
        lowered(cfg.banned@).contains("sport"@),
        contains_seq(lower_of(title), "sport"@) || contains_seq(lower_of(title), "sports"@),
    ensures
        !passes_ban(title, description, cfg),
{
    reveal_strlit("sport");
    reveal_strlit("sports");
    let t = lower_of(title);
    if contains_seq(t, "sports"@) {
        let i = choose|i: int| occurs_at(t, "sports"@, i);
        assert(t.subrange(i, i + 5) =~= t.subrange(i, i + 6).subrange(0, 5));
        assert(t.subrange(i, i + 5) =~= "sport"@);
        assert(occurs_at(t, "sport"@, i));
    }
    let ks = lowered(cfg.banned@);
    let j = choose|j: int| 0 <= j < ks.len() && ks[j] == "sport"@;
    lemma_keyword_itself_hits(t, lower_of(description), ks[j]);
}

/// The variants of "tech" are "tech" and "techs" and nothing wider: with
/// "tech" as the only category, an article matches exactly when its title or
/// description mentions one of those two.
pub proof fn lemma_tech_variants_exact(title: Seq<char>, description: Seq<char>, cfg: FilterConfig)
    requires
        lowered(cfg.categories@) == seq!["tech"@],
    ensures
        variants_spec("tech"@) == seq!["tech"@, "techs"@],
        matches_category(title, description, cfg) <==> (mentions(
            lower_of(title),
            lower_of(description),
            "tech"@,
        ) || mentions(lower_of(title), lower_of(description), "techs"@)),
{
    reveal_strlit("tech");
    reveal_strlit("techs");
    assert("tech"@.push('s') =~= "techs"@);
    assert(variants_spec("tech"@) =~= seq!["tech"@, "techs"@]);
    let ks = lowered(cfg.categories@);
    if matches_category(title, description, cfg) {
        let i = choose|i: int|
            0 <= i < ks.len() && keyword_hit(lower_of(title), lower_of(description), #[trigger] ks[i]);
        assert(i == 0);
    }
    if mentions(lower_of(title), lower_of(description), "tech"@) || mentions(
        lower_of(title),
        lower_of(description),
        "techs"@,
    ) {
        assert(keyword_hit(lower_of(title), lower_of(description), ks[0]));
    }
}

} // verus!
