use vstd::prelude::*;
use crate::error::ScrapeError;
use crate::scraper::{Article, ArticleV};
use crate::textparse::str_eq;

verus! {

/// The fixed interval between refresh cycles, in seconds: one hour. The
/// loop that drives the cycles sleeps this long between them.
pub const REFRESH_INTERVAL_SECS: u64 = 60 * 60;

/// Every stored article carries a well-formed timestamp.
pub open spec fn spec_dates_wf(arts: Seq<ArticleV>) -> bool {
    forall|j: int| 0 <= j < arts.len() ==> (#[trigger] arts[j]).date.wf()
}

/// The process-wide mapping from source name to the ordered article list
/// of that source's latest successful refresh. An entry is absent until
/// the first successful refresh commits it, and is replaced wholesale on
/// each later one; a failed cycle never touches it.
pub struct FeedCache {
    entries: Vec<(String, Vec<Article>)>,
}

/// The mapping a sequence of cache rows denotes.
spec fn spec_cache_map(s: Seq<(String, Vec<Article>)>) -> Map<Seq<char>, Seq<ArticleV>>
    decreases s.len(),
{
    if s.len() == 0 {
        Map::empty()
    } else {
        spec_cache_map(s.drop_last()).insert(s.last().0@, s.last().1.deep_view())
    }
}

impl View for FeedCache {
    type V = Map<Seq<char>, Seq<ArticleV>>;

    closed spec fn view(&self) -> Map<Seq<char>, Seq<ArticleV>> {
        spec_cache_map(self.entries@)
    }
}

spec fn spec_rows_unique(s: Seq<(String, Vec<Article>)>) -> bool {
    forall|a: int, b: int|
        0 <= a < b < s.len() ==> (#[trigger] s[a]).0@ != (#[trigger] s[b]).0@
}

proof fn lemma_cache_map_get(s: Seq<(String, Vec<Article>)>, i: int)
    requires
        spec_rows_unique(s),
        0 <= i < s.len(),
    ensures
        spec_cache_map(s).contains_key(s[i].0@),
        spec_cache_map(s)[s[i].0@] == s[i].1.deep_view(),
    decreases s.len(),
{
    if i < s.len() - 1 {
        let t = s.drop_last();
        assert(forall|a: int, b: int|
            0 <= a < b < t.len() ==> (#[trigger] t[a]).0@ != (#[trigger] t[b]).0@);
        lemma_cache_map_get(t, i);
        assert(t[i] == s[i]);
        assert(s[i].0@ != s.last().0@);
    }
}

proof fn lemma_cache_map_absent(s: Seq<(String, Vec<Article>)>, name: Seq<char>)
    requires
        forall|i: int| 0 <= i < s.len() ==> (#[trigger] s[i]).0@ != name,
    ensures
        !spec_cache_map(s).contains_key(name),
    decreases s.len(),
{
    if s.len() > 0 {
        lemma_cache_map_absent(s.drop_last(), name);
    }
}

proof fn lemma_cache_map_update(s: Seq<(String, Vec<Article>)>, i: int, p: (String, Vec<Article>))
    requires
        spec_rows_unique(s),
        0 <= i < s.len(),
        s[i].0@ == p.0@,
    ensures
        spec_cache_map(s.update(i, p)) == spec_cache_map(s).insert(p.0@, p.1.deep_view()),
    decreases s.len(),
{
    if i == s.len() - 1 {
        assert(s.update(i, p).drop_last() =~= s.drop_last());
        assert(s.update(i, p).last() == p);
        assert(spec_cache_map(s.update(i, p)) =~= spec_cache_map(s).insert(
            p.0@,
            p.1.deep_view(),
        ));
    } else {
        let t = s.drop_last();
        assert(forall|a: int, b: int|
            0 <= a < b < t.len() ==> (#[trigger] t[a]).0@ != (#[trigger] t[b]).0@);
        assert(t[i] == s[i]);
        lemma_cache_map_update(t, i, p);
        assert(s.update(i, p).drop_last() =~= t.update(i, p));
        assert(s.update(i, p).last() == s.last());
        assert(s[i].0@ != s.last().0@);
        assert(spec_cache_map(s.update(i, p)) =~= spec_cache_map(s).insert(
            p.0@,
            p.1.deep_view(),
        ));
    }
}

impl FeedCache {
    /// Source names are unique keys, and every cached timestamp is
    /// well formed.
    pub closed spec fn wf(&self) -> bool {
        &&& spec_rows_unique(self.entries@)
        &&& forall|i: int|
            0 <= i < self.entries@.len() ==> spec_dates_wf(
                (#[trigger] self.entries@[i]).1.deep_view(),
            )
    }

    /// An empty cache: every lookup reports "not found".
    pub fn new() -> (r: FeedCache)
        ensures
            r.wf(),
            r@ == Map::<Seq<char>, Seq<ArticleV>>::empty(),
    {
        FeedCache { entries: Vec::new() }
    }

    /// Looks a source up by name: nothing before its first successful
    /// refresh, else exactly the articles committed last, in order.
    pub fn lookup(&self, name: &str) -> (r: Option<&Vec<Article>>)
        requires
            self.wf(),
        ensures
            match r {
                Some(v) => self@.contains_key(name@) && self@[name@] == v.deep_view()
                    && spec_dates_wf(v.deep_view()),
                None => !self@.contains_key(name@),
            },
    {
        let n = self.entries.len();
        let mut i: usize = 0;
        while i < n
            invariant
                i <= n,
                n == self.entries@.len(),
                self.wf(),
                forall|j: int| 0 <= j < i ==> (#[trigger] self.entries@[j]).0@ != name@,
            decreases n - i,
        {
            if str_eq(self.entries[i].0.as_str(), name) {
                proof {
                    lemma_cache_map_get(self.entries@, i as int);
                }
                return Some(&self.entries[i].1);
            }
            i = i + 1;
        }
        proof {
            lemma_cache_map_absent(self.entries@, name@);
        }
        None
    }

    /// Replaces the named source's entry wholesale, or creates it on the
    /// first successful refresh. Nothing else in the cache changes.
    pub fn commit(&mut self, name: &str, articles: Vec<Article>)
        requires
            old(self).wf(),
            spec_dates_wf(articles.deep_view()),
        ensures
            final(self).wf(),
            final(self)@ == old(self)@.insert(name@, articles.deep_view()),
    {
        let n = self.entries.len();
        let mut i: usize = 0;
        while i < n
            invariant
                i <= n,
                n == self.entries@.len(),
                *self == *old(self),
                self.wf(),
                spec_dates_wf(articles.deep_view()),
                forall|j: int| 0 <= j < i ==> (#[trigger] self.entries@[j]).0@ != name@,
            decreases n - i,
        {
            if str_eq(self.entries[i].0.as_str(), name) {
                let key = name.to_owned();
                let ghost s = self.entries@;
                self.entries.remove(i);
                self.entries.insert(i, (key, articles));
                proof {
                    let p = self.entries@[i as int];
                    assert(self.entries@ =~= s.update(i as int, p));
                    lemma_cache_map_update(s, i as int, p);
                    assert(forall|a: int, b: int|
                        0 <= a < b < self.entries@.len() ==> (#[trigger] self.entries@[a]).0@ != (
                        #[trigger] self.entries@[b]).0@);
                }
                return ;
            }
            i = i + 1;
        }
        let key = name.to_owned();
        let ghost s = self.entries@;
        self.entries.push((key, articles));
        proof {
            let p = self.entries@[s.len() as int];
            assert(self.entries@.drop_last() =~= s);
            lemma_cache_map_absent(s, name@);
            assert(spec_cache_map(self.entries@) =~= spec_cache_map(s).insert(
                name@,
                articles.deep_view(),
            ));
            assert(forall|a: int, b: int|
                0 <= a < b < self.entries@.len() ==> (#[trigger] self.entries@[a]).0@ != (
                #[trigger] self.entries@[b]).0@);
        }
    }

    /// One source's outcome of a refresh cycle: success replaces that
    /// source's entry wholesale, failure leaves the cache exactly as it
    /// was, so stale-but-valid data keeps being served.
    pub fn apply_refresh(&mut self, name: &str, outcome: Result<Vec<Article>, ScrapeError>)
        requires
            old(self).wf(),
            outcome matches Ok(arts) ==> spec_dates_wf(arts.deep_view()),
        ensures
            final(self).wf(),
            match outcome {
                Ok(arts) => final(self)@ == old(self)@.insert(name@, arts.deep_view()),
                Err(_) => final(self)@ == old(self)@ && *final(self) == *old(self),
            },
    {
        match outcome {
            Ok(arts) => self.commit(name, arts),
            Err(_) => (),
        }
    }
}

/// Sources are independent within one cycle: committing source `b`'s
/// fresh articles leaves any other source `a`'s entry untouched — still
/// absent if it was absent, unchanged if it was present — while `b`'s
/// entry becomes exactly the committed list.
pub proof fn lemma_sources_independent(
    m: Map<Seq<char>, Seq<ArticleV>>,
    a: Seq<char>,
    b: Seq<char>,
    arts: Seq<ArticleV>,
)
    requires
        a != b,
    ensures
        m.contains_key(a) ==> m.insert(b, arts).contains_key(a) && m.insert(b, arts)[a] == m[a],
        !m.contains_key(a) ==> !m.insert(b, arts).contains_key(a),
        m.insert(b, arts).contains_key(b) && m.insert(b, arts)[b] == arts,
{
}

} // verus!
