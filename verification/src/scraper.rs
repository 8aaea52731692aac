use vstd::prelude::*;
use crate::dateparse::{parse_date, spec_parse_date};
use crate::datetime::Timestamp;
use crate::error::ScrapeError;
use crate::html::{
    select_attr, select_attr_of, select_fragments, select_fragments_of, select_html,
    select_html_of, select_text, select_text_of, selector_ok,
};
use crate::textparse::{spec_trim, trim_str};
use crate::urls::{url_join, url_join_of, url_parse, url_parse_of};

verus! {

/// One structured article of a refresh cycle.
#[derive(Debug)]
pub struct Article {
    /// Trimmed display title.
    pub headline: String,
    /// Absolute canonical URL, resolved against the source's base URL;
    /// also the article's unique identifier in a feed.
    pub link: String,
    /// Body content, kept as-is; may contain markup.
    pub body: String,
    /// Optional absolute image URL.
    pub image: Option<String>,
    /// Timezone-aware publication timestamp.
    pub date: Timestamp,
}

/// The mathematical value of an `Article`.
pub struct ArticleV {
    pub headline: Seq<char>,
    pub link: Seq<char>,
    pub body: Seq<char>,
    pub image: Option<Seq<char>>,
    pub date: Timestamp,
}

impl View for Article {
    type V = ArticleV;

    open spec fn view(&self) -> ArticleV {
        ArticleV {
            headline: self.headline@,
            link: self.link@,
            body: self.body@,
            image: match self.image {
                Some(u) => Some(u@),
                None => None,
            },
            date: self.date,
        }
    }
}

impl DeepView for Article {
    type V = ArticleV;

    open spec fn deep_view(&self) -> ArticleV {
        self.view()
    }
}

/// One listing entry: the headline shown on the listing page and the
/// absolute URL of the article's own page.
#[derive(Debug)]
pub struct Entry {
    pub headline: String,
    pub link: String,
}

/// The mathematical value of an `Entry`.
pub struct EntryV {
    pub headline: Seq<char>,
    pub link: Seq<char>,
}

impl View for Entry {
    type V = EntryV;

    open spec fn view(&self) -> EntryV {
        EntryV { headline: self.headline@, link: self.link@ }
    }
}

impl DeepView for Entry {
    type V = EntryV;

    open spec fn deep_view(&self) -> EntryV {
        self.view()
    }
}

/// The immutable description of one news site: where its listing lives,
/// which structural queries identify an article's parts, and how its
/// dates read. Pure data; `name` is the cache key, `route` the lowercase
/// feed route segment.
#[derive(Debug)]
pub struct Scraper {
    pub name: String,
    pub route: String,
    pub base_url: String,
    pub news_url: String,
    pub article_selector: String,
    pub headline_selector: String,
    pub link_selector: String,
    pub body_selector: String,
    pub image_selector: Option<String>,
    pub date_selector: String,
    /// Whether a date text that does not match the grammar falls back to
    /// the current time instead of failing the extraction.
    pub date_fallback_now: bool,
}

/// The configured RTE news source.
pub fn rte() -> (r: Scraper)
    ensures
        r.name@ == "RTE"@,
        r.route@ == "rte"@,
        r.base_url@ == "https://www.rte.ie/"@,
        r.news_url@ == "/news/"@,
        r.article_selector@ == ":not(.av-box) ~ .article-meta"@,
        r.headline_selector@ == "span.underline"@,
        r.link_selector@ == "a"@,
        r.body_selector@ == "section.article-body"@,
        r.image_selector is None,
        r.date_selector@ == "span.modified-date"@,
        r.date_fallback_now,
{
    Scraper {
        name: "RTE".to_owned(),
        route: "rte".to_owned(),
        base_url: "https://www.rte.ie/".to_owned(),
        news_url: "/news/".to_owned(),
        article_selector: ":not(.av-box) ~ .article-meta".to_owned(),
        headline_selector: "span.underline".to_owned(),
        link_selector: "a".to_owned(),
        body_selector: "section.article-body".to_owned(),
        image_selector: None,
        date_selector: "span.modified-date".to_owned(),
        date_fallback_now: true,
    }
}

/// What one listing fragment yields: its trimmed headline text and the
/// entry's absolute link, or the first failure hit — an unparseable
/// selector among them.
pub open spec fn spec_entry(sc: Scraper, frag: Seq<char>) -> Result<EntryV, ScrapeError> {
    if !selector_ok(sc.link_selector@) {
        Err(ScrapeError::Selector)
    } else {
        match select_attr_of(frag, sc.link_selector@, "href"@) {
            None => Err(ScrapeError::MissingAttribute),
            Some(href) => match url_join_of(sc.base_url@, href) {
                None => Err(ScrapeError::Url),
                Some(link) => if !selector_ok(sc.headline_selector@) {
                    Err(ScrapeError::Selector)
                } else {
                    Ok(
                        EntryV {
                            headline: spec_trim(select_text_of(frag, sc.headline_selector@)),
                            link,
                        },
                    )
                },
            },
        }
    }
}

/// The whole listing: an unparseable article selector fails it; else the
/// entries of its matched fragments, in document order.
pub open spec fn spec_listing(sc: Scraper, listing_html: Seq<char>) -> Result<
    Seq<EntryV>,
    ScrapeError,
> {
    if !selector_ok(sc.article_selector@) {
        Err(ScrapeError::Selector)
    } else {
        spec_listing_from(sc, select_fragments_of(listing_html, sc.article_selector@), 0)
    }
}

/// The listing entries from fragment `i` on, in document order; the first
/// failing fragment aborts the whole listing.
pub open spec fn spec_listing_from(sc: Scraper, frags: Seq<Seq<char>>, i: int) -> Result<
    Seq<EntryV>,
    ScrapeError,
>
    decreases frags.len() - i,
{
    if i < 0 || i >= frags.len() {
        Ok(Seq::empty())
    } else {
        match spec_entry(sc, frags[i]) {
            Err(e) => Err(e),
            Ok(ev) => match spec_listing_from(sc, frags, i + 1) {
                Err(e) => Err(e),
                Ok(rest) => Ok(seq![ev] + rest),
            },
        }
    }
}

proof fn lemma_listing_ok(sc: Scraper, frags: Seq<Seq<char>>, es: Seq<EntryV>, i: int)
    requires
        0 <= i <= frags.len(),
        es.len() == frags.len() - i,
        forall|j: int|
            i <= j < frags.len() ==> #[trigger] spec_entry(sc, frags[j]) == Ok::<
                EntryV,
                ScrapeError,
            >(es[j - i]),
    ensures
        spec_listing_from(sc, frags, i) == Ok::<Seq<EntryV>, ScrapeError>(es),
    decreases frags.len() - i,
{
    if i >= frags.len() {
        assert(es =~= Seq::<EntryV>::empty());
    } else {
        lemma_listing_ok(sc, frags, es.drop_first(), i + 1);
        assert(spec_entry(sc, frags[i]) == Ok::<EntryV, ScrapeError>(es[0]));
        assert(seq![es[0]] + es.drop_first() =~= es);
    }
}

proof fn lemma_listing_err(sc: Scraper, frags: Seq<Seq<char>>, i: int, k: int, e: ScrapeError)
    requires
        0 <= i <= k < frags.len(),
        forall|j: int| i <= j < k ==> (#[trigger] spec_entry(sc, frags[j])) is Ok,
        spec_entry(sc, frags[k]) == Err::<EntryV, ScrapeError>(e),
    ensures
        spec_listing_from(sc, frags, i) == Err::<Seq<EntryV>, ScrapeError>(e),
    decreases k - i,
{
    if i < k {
        lemma_listing_err(sc, frags, i + 1, k, e);
    }
}

/// Order and count of a successful listing parse: exactly one entry per
/// matched fragment, in document order, each determined by its own
/// fragment.
pub proof fn lemma_listing_order(sc: Scraper, frags: Seq<Seq<char>>, es: Seq<EntryV>)
    requires
        spec_listing_from(sc, frags, 0) == Ok::<Seq<EntryV>, ScrapeError>(es),
    ensures
        es.len() == frags.len(),
        forall|j: int|
            0 <= j < frags.len() ==> #[trigger] spec_entry(sc, frags[j]) == Ok::<
                EntryV,
                ScrapeError,
            >(es[j]),
{
    lemma_listing_order_from(sc, frags, es, 0);
}

proof fn lemma_listing_order_from(sc: Scraper, frags: Seq<Seq<char>>, es: Seq<EntryV>, i: int)
    requires
        0 <= i <= frags.len(),
        spec_listing_from(sc, frags, i) == Ok::<Seq<EntryV>, ScrapeError>(es),
    ensures
        es.len() == frags.len() - i,
        forall|j: int|
            i <= j < frags.len() ==> #[trigger] spec_entry(sc, frags[j]) == Ok::<
                EntryV,
                ScrapeError,
            >(es[j - i]),
    decreases frags.len() - i,
{
    if i < frags.len() {
        let ev = spec_entry(sc, frags[i])->Ok_0;
        let rest = spec_listing_from(sc, frags, i + 1)->Ok_0;
        lemma_listing_order_from(sc, frags, rest, i + 1);
        assert(es == seq![ev] + rest);
        assert(forall|j: int|
            i + 1 <= j < frags.len() ==> #[trigger] rest[j - i - 1] == es[j - i]);
    }
}

/// What one article page yields for the image rule: no image when none is
/// configured, else the `src` of the image selector's match parsed as an
/// absolute URL; a configured selector without a usable `src` fails.
pub open spec fn spec_image(sc: Scraper, page: Seq<char>) -> Result<
    Option<Seq<char>>,
    ScrapeError,
> {
    match sc.image_selector {
        None => Ok(None),
        Some(isel) => if !selector_ok(isel@) {
            Err(ScrapeError::Selector)
        } else {
            match select_attr_of(page, isel@, "src"@) {
                None => Err(ScrapeError::MissingAttribute),
                Some(src) => match url_parse_of(src) {
                    None => Err(ScrapeError::Url),
                    Some(u) => Ok(Some(u)),
                },
            }
        },
    }
}

/// What one fetched article page yields: body markup, optional image, and
/// the parsed publication date, joined with the entry's headline and
/// link.
pub open spec fn spec_article(
    sc: Scraper,
    entry: EntryV,
    page: Seq<char>,
    now: Timestamp,
) -> Result<ArticleV, ScrapeError> {
    match spec_image(sc, page) {
        Err(e) => Err(e),
        Ok(image) => if !selector_ok(sc.date_selector@) {
            Err(ScrapeError::Selector)
        } else {
            match spec_parse_date(
                sc.date_fallback_now,
                select_text_of(page, sc.date_selector@),
                now,
            ) {
                Err(e) => Err(e),
                Ok(date) => if !selector_ok(sc.body_selector@) {
                    Err(ScrapeError::Selector)
                } else {
                    Ok(
                        ArticleV {
                            headline: entry.headline,
                            link: entry.link,
                            body: select_html_of(page, sc.body_selector@),
                            image,
                            date,
                        },
                    )
                },
            }
        },
    }
}

/// The page results as mathematical values.
pub open spec fn spec_pages_view(ps: Seq<Result<String, ScrapeError>>) -> Seq<
    Result<Seq<char>, ScrapeError>,
> {
    Seq::new(
        ps.len(),
        |i: int|
            match ps[i] {
                Ok(s) => Ok(s@),
                Err(e) => Err(e),
            },
    )
}

/// The articles from entry `i` on, in listing order; the first failing
/// page or article aborts the whole extraction, so no partial list is
/// ever produced.
pub open spec fn spec_articles_from(
    sc: Scraper,
    entries: Seq<EntryV>,
    pages: Seq<Result<Seq<char>, ScrapeError>>,
    now: Timestamp,
    i: int,
) -> Result<Seq<ArticleV>, ScrapeError>
    decreases entries.len() - i,
{
    if i < 0 || i >= entries.len() {
        Ok(Seq::empty())
    } else {
        match pages[i] {
            Err(e) => Err(e),
            Ok(page) => match spec_article(sc, entries[i], page, now) {
                Err(e) => Err(e),
                Ok(a) => match spec_articles_from(sc, entries, pages, now, i + 1) {
                    Err(e) => Err(e),
                    Ok(rest) => Ok(seq![a] + rest),
                },
            },
        }
    }
}

proof fn lemma_articles_ok(
    sc: Scraper,
    entries: Seq<EntryV>,
    pages: Seq<Result<Seq<char>, ScrapeError>>,
    now: Timestamp,
    arts: Seq<ArticleV>,
    i: int,
)
    requires
        entries.len() == pages.len(),
        0 <= i <= entries.len(),
        arts.len() == entries.len() - i,
        forall|j: int|
            i <= j < entries.len() ==> ((#[trigger] pages[j]) matches Ok(p) && spec_article(
                sc,
                entries[j],
                p,
                now,
            ) == Ok::<ArticleV, ScrapeError>(arts[j - i])),
    ensures
        spec_articles_from(sc, entries, pages, now, i) == Ok::<Seq<ArticleV>, ScrapeError>(arts),
    decreases entries.len() - i,
{
    if i >= entries.len() {
        assert(arts =~= Seq::<ArticleV>::empty());
    } else {
        lemma_articles_ok(sc, entries, pages, now, arts.drop_first(), i + 1);
        assert(pages[i] matches Ok(p) && spec_article(sc, entries[i], p, now) == Ok::<
            ArticleV,
            ScrapeError,
        >(arts[0]));
        assert(seq![arts[0]] + arts.drop_first() =~= arts);
    }
}

proof fn lemma_articles_err(
    sc: Scraper,
    entries: Seq<EntryV>,
    pages: Seq<Result<Seq<char>, ScrapeError>>,
    now: Timestamp,
    i: int,
    k: int,
    e: ScrapeError,
)
    requires
        entries.len() == pages.len(),
        0 <= i <= k < entries.len(),
        forall|j: int|
            i <= j < k ==> ((#[trigger] pages[j]) matches Ok(p) && spec_article(
                sc,
                entries[j],
                p,
                now,
            ) is Ok),
        match pages[k] {
            Err(pe) => pe == e,
            Ok(page) => spec_article(sc, entries[k], page, now) == Err::<ArticleV, ScrapeError>(e),
        },
    ensures
        spec_articles_from(sc, entries, pages, now, i) == Err::<Seq<ArticleV>, ScrapeError>(e),
    decreases k - i,
{
    if i < k {
        lemma_articles_err(sc, entries, pages, now, i + 1, k, e);
    }
}

/// Order and count of a successful extraction: exactly one article per
/// listing entry, in listing order, each determined by its own entry and
/// page.
pub proof fn lemma_extraction_order(
    sc: Scraper,
    entries: Seq<EntryV>,
    pages: Seq<Result<Seq<char>, ScrapeError>>,
    now: Timestamp,
    arts: Seq<ArticleV>,
)
    requires
        entries.len() == pages.len(),
        spec_articles_from(sc, entries, pages, now, 0) == Ok::<Seq<ArticleV>, ScrapeError>(arts),
    ensures
        arts.len() == entries.len(),
        forall|j: int|
            0 <= j < entries.len() ==> ((#[trigger] pages[j]) matches Ok(p) && spec_article(
                sc,
                entries[j],
                p,
                now,
            ) == Ok::<ArticleV, ScrapeError>(arts[j])),
{
    lemma_extraction_order_from(sc, entries, pages, now, arts, 0);
}

proof fn lemma_extraction_order_from(
    sc: Scraper,
    entries: Seq<EntryV>,
    pages: Seq<Result<Seq<char>, ScrapeError>>,
    now: Timestamp,
    arts: Seq<ArticleV>,
    i: int,
)
    requires
        entries.len() == pages.len(),
        0 <= i <= entries.len(),
        spec_articles_from(sc, entries, pages, now, i) == Ok::<Seq<ArticleV>, ScrapeError>(arts),
    ensures
        arts.len() == entries.len() - i,
        forall|j: int|
            i <= j < entries.len() ==> ((#[trigger] pages[j]) matches Ok(p) && spec_article(
                sc,
                entries[j],
                p,
                now,
            ) == Ok::<ArticleV, ScrapeError>(arts[j - i])),
    decreases entries.len() - i,
{
    if i < entries.len() {
        let page = pages[i]->Ok_0;
        let a = spec_article(sc, entries[i], page, now)->Ok_0;
        let rest = spec_articles_from(sc, entries, pages, now, i + 1)->Ok_0;
        lemma_extraction_order_from(sc, entries, pages, now, rest, i + 1);
        assert(arts == seq![a] + rest);
        assert(forall|j: int|
            i + 1 <= j < entries.len() ==> #[trigger] rest[j - i - 1] == arts[j - i]);
    }
}

/// A failed page fetch anywhere in the listing fails the whole
/// extraction: no partial article list can come out of it.
pub proof fn lemma_page_failure_aborts(
    sc: Scraper,
    entries: Seq<EntryV>,
    pages: Seq<Result<Seq<char>, ScrapeError>>,
    now: Timestamp,
    k: int,
)
    requires
        entries.len() == pages.len(),
        0 <= k < pages.len(),
        pages[k] is Err,
    ensures
        spec_articles_from(sc, entries, pages, now, 0) is Err,
{
    let r = spec_articles_from(sc, entries, pages, now, 0);
    if r is Ok {
        lemma_extraction_order(sc, entries, pages, now, r->Ok_0);
    }
}

impl Scraper {
    /// Resolves a path against the source's base URL.
    pub fn url(&self, path: &str) -> (r: Result<String, ScrapeError>)
        ensures
            ({
                let o = url_join_of(self.base_url@, path@);
                match r {
                    Ok(u) => o == Some(u@),
                    Err(e) => o is None && e == ScrapeError::Url,
                }
            }),
    {
        match url_join(self.base_url.as_str(), path) {
            Some(u) => Ok(u),
            None => Err(ScrapeError::Url),
        }
    }

    /// Reads the fetched listing page: one entry per fragment matched by
    /// the article selector, in document order, each with its trimmed
    /// headline and its link resolved against the base URL. An entry
    /// without a link aborts the whole listing.
    pub fn parse_listing(&self, listing_html: &str) -> (r: Result<Vec<Entry>, ScrapeError>)
        ensures
            match r {
                Ok(es) => spec_listing(*self, listing_html@) == Ok::<Seq<EntryV>, ScrapeError>(
                    es.deep_view(),
                ),
                Err(e) => spec_listing(*self, listing_html@) == Err::<Seq<EntryV>, ScrapeError>(e),
            },
    {
        let frags = match select_fragments(listing_html, self.article_selector.as_str()) {
            Some(f) => f,
            None => {
                return Err(ScrapeError::Selector);
            },
        };
        let ghost gfrags = select_fragments_of(listing_html@, self.article_selector@);
        let mut es: Vec<Entry> = Vec::new();
        let n = frags.len();
        let mut i: usize = 0;
        while i < n
            invariant
                n == frags@.len(),
                frags.deep_view() == gfrags,
                gfrags == select_fragments_of(listing_html@, self.article_selector@),
                selector_ok(self.article_selector@),
                i <= n,
                es@.len() == i,
                forall|j: int|
                    0 <= j < i ==> #[trigger] spec_entry(*self, gfrags[j]) == Ok::<
                        EntryV,
                        ScrapeError,
                    >(es.deep_view()[j]),
            decreases n - i,
        {
            let frag = &frags[i];
            proof {
                assert(gfrags[i as int] == frag@);
            }
            let attr = match select_attr(frag.as_str(), self.link_selector.as_str(), "href") {
                Some(o) => o,
                None => {
                    proof {
                        lemma_listing_err(*self, gfrags, 0, i as int, ScrapeError::Selector);
                    }
                    return Err(ScrapeError::Selector);
                },
            };
            let href = match attr {
                Some(h) => h,
                None => {
                    proof {
                        lemma_listing_err(*self, gfrags, 0, i as int, ScrapeError::MissingAttribute);
                    }
                    return Err(ScrapeError::MissingAttribute);
                },
            };
            let link = match url_join(self.base_url.as_str(), href.as_str()) {
                Some(u) => u,
                None => {
                    proof {
                        lemma_listing_err(*self, gfrags, 0, i as int, ScrapeError::Url);
                    }
                    return Err(ScrapeError::Url);
                },
            };
            let text = match select_text(frag.as_str(), self.headline_selector.as_str()) {
                Some(t) => t,
                None => {
                    proof {
                        lemma_listing_err(*self, gfrags, 0, i as int, ScrapeError::Selector);
                    }
                    return Err(ScrapeError::Selector);
                },
            };
            let headline = trim_str(text.as_str());
            es.push(Entry { headline, link });
            i = i + 1;
        }
        proof {
            lemma_listing_ok(*self, gfrags, es.deep_view(), 0);
        }
        Ok(es)
    }

    /// Turns one fetched article page into an article, joined with its
    /// listing entry.
    pub fn get_article(&self, entry: &Entry, page: &str, now: &Timestamp) -> (r: Result<
        Article,
        ScrapeError,
    >)
        requires
            now.wf(),
        ensures
            match r {
                Ok(a) => spec_article(*self, entry@, page@, *now) == Ok::<ArticleV, ScrapeError>(a@)
                    && a.date.wf(),
                Err(e) => spec_article(*self, entry@, page@, *now) == Err::<ArticleV, ScrapeError>(
                    e,
                ),
            },
    {
        let image: Option<String> = match &self.image_selector {
            None => None,
            Some(isel) => {
                match select_attr(page, isel.as_str(), "src") {
                    None => {
                        return Err(ScrapeError::Selector);
                    },
                    Some(None) => {
                        return Err(ScrapeError::MissingAttribute);
                    },
                    Some(Some(src)) => {
                        match url_parse(src.as_str()) {
                            None => {
                                return Err(ScrapeError::Url);
                            },
                            Some(u) => Some(u),
                        }
                    },
                }
            },
        };
        let date_text = match select_text(page, self.date_selector.as_str()) {
            Some(t) => t,
            None => {
                return Err(ScrapeError::Selector);
            },
        };
        let date = match parse_date(self.date_fallback_now, date_text.as_str(), now) {
            Ok(d) => d,
            Err(e) => {
                return Err(e);
            },
        };
        let body = match select_html(page, self.body_selector.as_str()) {
            Some(b) => b,
            None => {
                return Err(ScrapeError::Selector);
            },
        };
        let headline = self.clone_headline(entry);
        let link = self.clone_link(entry);
        Ok(Article { headline, link, body, image, date })
    }

    fn clone_headline(&self, entry: &Entry) -> (r: String)
        ensures
            r@ == entry.headline@,
    {
        entry.headline.as_str().to_owned()
    }

    fn clone_link(&self, entry: &Entry) -> (r: String)
        ensures
            r@ == entry.link@,
    {
        entry.link.as_str().to_owned()
    }

    /// Assembles the articles of one refresh of this source from its
    /// parsed listing entries and the fetch result of each entry's page,
    /// in listing order. Any failed fetch or failed article aborts the
    /// whole extraction; on success there is exactly one article per
    /// entry.
    pub fn get_articles(
        &self,
        entries: &Vec<Entry>,
        pages: &Vec<Result<String, ScrapeError>>,
        now: &Timestamp,
    ) -> (r: Result<Vec<Article>, ScrapeError>)
        requires
            entries@.len() == pages@.len(),
            now.wf(),
        ensures
            ({
                let sr = spec_articles_from(
                    *self,
                    entries.deep_view(),
                    spec_pages_view(pages@),
                    *now,
                    0,
                );
                match r {
                    Ok(arts) => sr == Ok::<Seq<ArticleV>, ScrapeError>(arts.deep_view())
                        && arts@.len() == entries@.len() && (forall|j: int|
                        0 <= j < arts@.len() ==> (#[trigger] arts@[j]).date.wf()),
                    Err(e) => sr == Err::<Seq<ArticleV>, ScrapeError>(e),
                }
            }),
    {
        let ghost gentries = entries.deep_view();
        let ghost gpages = spec_pages_view(pages@);
        let n = entries.len();
        let mut arts: Vec<Article> = Vec::new();
        let mut i: usize = 0;
        while i < n
            invariant
                n == entries@.len(),
                entries@.len() == pages@.len(),
                gentries == entries.deep_view(),
                gpages == spec_pages_view(pages@),
                now.wf(),
                i <= n,
                arts@.len() == i,
                forall|j: int|
                    0 <= j < i ==> ((#[trigger] gpages[j]) matches Ok(p) && spec_article(
                        *self,
                        gentries[j],
                        p,
                        *now,
                    ) == Ok::<ArticleV, ScrapeError>(arts.deep_view()[j])),
                forall|j: int| 0 <= j < i ==> (#[trigger] arts@[j]).date.wf(),
            decreases n - i,
        {
            let page = match &pages[i] {
                Ok(p) => p,
                Err(e) => {
                    let err = *e;
                    proof {
                        lemma_articles_err(*self, gentries, gpages, *now, 0, i as int, err);
                    }
                    return Err(err);
                },
            };
            let a = match self.get_article(&entries[i], page.as_str(), now) {
                Ok(a) => a,
                Err(e) => {
                    proof {
                        assert(gpages[i as int] matches Ok(p) && p == page@);
                        lemma_articles_err(*self, gentries, gpages, *now, 0, i as int, e);
                    }
                    return Err(e);
                },
            };
            proof {
                assert(gpages[i as int] matches Ok(p) && p == page@);
            }
            arts.push(a);
            i = i + 1;
        }
        proof {
            lemma_articles_ok(*self, gentries, gpages, *now, arts.deep_view(), 0);
        }
        Ok(arts)
    }
}

} // verus!
