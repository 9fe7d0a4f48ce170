//! The run's registry of titles already let through: each title surfaces
//! once, the first article to carry it winning.
use vstd::prelude::*;
use crate::text::str_equal;
use crate::types::{Article, ArticleText, article_views};

verus! {

/// Titles already let through in this run.
pub struct DedupRegistry {
    titles: Vec<String>,
}

impl View for DedupRegistry {
    type V = Set<Seq<char>>;

    closed spec fn view(&self) -> Set<Seq<char>> {
        Set::new(|t: Seq<char>| exists|i: int| 0 <= i < self.titles@.len() && self.titles@[i]@ == t)
    }
}

/// What letting `arts` through in order does, starting from the titles
/// `seen`: the articles whose title was not seen before (first one wins),
/// and the titles seen afterwards.
pub open spec fn first_seen_spec(seen: Set<Seq<char>>, arts: Seq<ArticleText>) -> (Seq<ArticleText>, Set<Seq<char>>)
    decreases arts.len(),
{
    if arts.len() == 0 {
        (Seq::empty(), seen)
    } else {
        let (out, s) = first_seen_spec(seen, arts.drop_last());
        let a = arts.last();
        if s.contains(a.title) {
            (out, s)
        } else {
            (out.push(a), s.insert(a.title))
        }
    }
}

impl DedupRegistry {
    /// An empty registry, for the start of a run.
    pub fn new() -> (r: DedupRegistry)
        ensures
            r@ == Set::<Seq<char>>::empty(),
    {
        let r = DedupRegistry { titles: Vec::new() };
        assert(r@ =~= Set::<Seq<char>>::empty());
        r
    }

    /// Whether `title` was let through already.
    pub fn contains(&self, title: &str) -> (r: bool)
        ensures
            r == self@.contains(title@),
    {
        let mut i: usize = 0;
        while i < self.titles.len()
            invariant
                i <= self.titles.len(),
                forall|k: int| 0 <= k < i ==> self.titles@[k]@ != title@,
            decreases self.titles.len() - i,
        {
            if str_equal(self.titles[i].as_str(), title) {
                return true;
            }
            i = i + 1;
        }
        false
    }

    /// Records `title`; true when it was not there before.
    pub fn insert(&mut self, title: &str) -> (r: bool)
        ensures
            r == !old(self)@.contains(title@),
            final(self)@ == old(self)@.insert(title@),
    {
        if self.contains(title) {
            assert(self@ =~= self@.insert(title@));
            false
        } else {
            let ghost before = self.titles@;
            self.titles.push(String::from_str(title));
            assert(self@ =~= old(self)@.insert(title@)) by {
                assert forall|t: Seq<char>| self@.contains(t) <==> old(self)@.insert(title@).contains(t) by {
                    if old(self)@.contains(t) {
                        let k = choose|k: int| 0 <= k < before.len() && before[k]@ == t;
                        assert(self.titles@[k] == before[k]);
                    }
                    if self@.contains(t) && t != title@ {
                        let k = choose|k: int| 0 <= k < self.titles@.len() && self.titles@[k]@ == t;
                        assert(k < before.len());
                        assert(before[k]@ == t);
                    }
                    if t == title@ {
                        assert(self.titles@[before.len() as int]@ == t);
                    }
                }
            }
            true
        }
    }

    /// Lets `articles` through in order, dropping each whose title was seen
    /// before, in this batch or an earlier one.
    pub fn let_through(&mut self, articles: Vec<Article>) -> (r: Vec<Article>)
        ensures
            article_views(r@) == first_seen_spec(old(self)@, article_views(articles@)).0,
            final(self)@ == first_seen_spec(old(self)@, article_views(articles@)).1,
    {
        let ghost seen0 = self@;
        let mut out: Vec<Article> = Vec::new();
        let mut i: usize = 0;
        while i < articles.len()
            invariant
                i <= articles.len(),
                (article_views(out@), self@) == first_seen_spec(
                    seen0,
                    article_views(articles@.subrange(0, i as int)),
                ),
            decreases articles.len() - i,
        {
            let ghost before = out@;
            let ghost pre = article_views(articles@.subrange(0, i as int));
            let ghost cur = article_views(articles@.subrange(0, i + 1));
            assert(cur.drop_last() =~= pre);
            assert(cur.last() == articles@[i as int]@);
            if self.insert(articles[i].title.as_str()) {
                out.push(articles[i].clone_article());
                assert(article_views(out@) =~= article_views(before).push(articles@[i as int]@));
            }
            i = i + 1;
        }
        assert(articles@.subrange(0, i as int) =~= articles@);
        out
    }
}


/// Letting two batches through one after the other is letting their
/// concatenation through.
pub proof fn lemma_first_seen_concat(seen: Set<Seq<char>>, a: Seq<ArticleText>, b: Seq<ArticleText>)
    ensures
        first_seen_spec(seen, a + b) == ({
            let (o1, s1) = first_seen_spec(seen, a);
            let (o2, s2) = first_seen_spec(s1, b);
            (o1 + o2, s2)
        }),
    decreases b.len(),
{
    if b.len() == 0 {
        assert(a + b =~= a);
        let (o1, s1) = first_seen_spec(seen, a);
        assert(o1 + Seq::<ArticleText>::empty() =~= o1);
    } else {
        lemma_first_seen_concat(seen, a, b.drop_last());
        assert((a + b).drop_last() =~= a + b.drop_last());
        assert((a + b).last() == b.last());
        let (o1, s1) = first_seen_spec(seen, a);
        let (o2, s2) = first_seen_spec(s1, b.drop_last());
        assert((o1 + o2).push(b.last()) =~= o1 + o2.push(b.last()));
    }
}

/// Of the articles let through, no two share a title, none has a title seen
/// before, and every title let through is recorded.
pub proof fn lemma_first_seen_unique(seen: Set<Seq<char>>, arts: Seq<ArticleText>)
    ensures
        ({
            let (out, s) = first_seen_spec(seen, arts);
            &&& forall|i: int, j: int|
                0 <= i < out.len() && 0 <= j < out.len() && i != j ==> #[trigger] out[i].title
                    != #[trigger] out[j].title
            &&& forall|i: int| 0 <= i < out.len() ==> !seen.contains(#[trigger] out[i].title)
            &&& forall|i: int| 0 <= i < out.len() ==> s.contains(#[trigger] out[i].title)
            &&& seen.subset_of(s)
        }),
    decreases arts.len(),
{
    if arts.len() > 0 {
        lemma_first_seen_unique(seen, arts.drop_last());
    }
}

} // verus!
