use vstd::prelude::*;
use crate::cache::{spec_dates_wf, FeedCache};
use crate::datetime::spec_rfc2822;
use crate::scraper::{Article, ArticleV};

verus! {

#[verifier::external_type_specification]
#[verifier::external_body]
pub struct ExItem(rss::Item);

/// What the rss builders make of one item's fields: the feed item whose
/// title, link, permanent guid (equal to the link), publication date and
/// content are exactly the given values. A function of the fields alone.
pub uninterp spec fn rss_item_of(
    title: Seq<char>,
    link: Seq<char>,
    date: Seq<char>,
    content: Seq<char>,
) -> rss::Item;

/// Relies on rss's ItemBuilder, GuidBuilder and their infallible `build`:
/// the builders set exactly the fields they are handed, with the link
/// doubling as a permalink guid.
#[verifier::external_body]
fn build_item(title: &str, link: &str, date: &str, content: &str) -> (r: rss::Item)
    ensures
        r == rss_item_of(title@, link@, date@, content@),
{
    rss::ItemBuilder::default()
        .title(title.to_string())
        .guid(rss::GuidBuilder::default().value(link.to_string()).permalink(true).build())
        .link(link.to_string())
        .pub_date(date.to_string())
        .content(content.to_string())
        .build()
}

/// What rss's Channel serialization yields for a feed with this title and
/// these items, in this order. A function of the two alone.
pub uninterp spec fn channel_xml_of(title: Seq<char>, items: Seq<rss::Item>) -> Seq<char>;

/// Relies on rss's ChannelBuilder, its infallible `build`, and Channel's
/// serialization to a string.
#[verifier::external_body]
fn build_channel_xml(title: &str, items: Vec<rss::Item>) -> (r: String)
    ensures
        r@ == channel_xml_of(title@, items@),
{
    rss::ChannelBuilder::default().title(title.to_string()).items(items).build().to_string()
}

/// The feed items of a cached article list, one per article in cache
/// order: title from the headline, the link as both link and permanent
/// identifier, the date in RFC-2822 form, the body verbatim.
pub open spec fn spec_feed_items(arts: Seq<ArticleV>) -> Seq<rss::Item> {
    Seq::new(
        arts.len(),
        |i: int|
            rss_item_of(arts[i].headline, arts[i].link, spec_rfc2822(arts[i].date), arts[i].body),
    )
}

/// Renders one source's cached articles as its feed document.
pub fn render_feed(name: &str, arts: &Vec<Article>) -> (r: String)
    requires
        spec_dates_wf(arts.deep_view()),
    ensures
        r@ == channel_xml_of(name@, spec_feed_items(arts.deep_view())),
{
    let mut items: Vec<rss::Item> = Vec::new();
    let n = arts.len();
    let mut i: usize = 0;
    while i < n
        invariant
            i <= n,
            n == arts@.len(),
            spec_dates_wf(arts.deep_view()),
            items@.len() == i,
            forall|j: int|
                0 <= j < i ==> items@[j] == spec_feed_items(arts.deep_view())[j],
        decreases n - i,
    {
        let a = &arts[i];
        proof {
            assert(arts.deep_view()[i as int].date.wf());
            assert(a.date == arts.deep_view()[i as int].date);
        }
        let date = a.date.to_rfc2822();
        let it = build_item(a.headline.as_str(), a.link.as_str(), date.as_str(), a.body.as_str());
        items.push(it);
        i = i + 1;
    }
    proof {
        assert(items@ =~= spec_feed_items(arts.deep_view()));
    }
    build_channel_xml(name, items)
}

/// Serves one feed request from the cache: nothing when the source has no
/// cached data yet (the caller answers "not found"), else the rendered
/// feed document. A pure read-then-render step: the cache is untouched.
pub fn feed_response(cache: &FeedCache, name: &str) -> (r: Option<String>)
    requires
        cache.wf(),
    ensures
        r is None <==> !cache@.contains_key(name@),
        r matches Some(x) ==> x@ == channel_xml_of(name@, spec_feed_items(cache@[name@])),
{
    match cache.lookup(name) {
        None => None,
        Some(arts) => Some(render_feed(name, arts)),
    }
}

/// A feed has exactly one item per cached article, in cache order, each
/// item made from its own article's headline, link, date and body — so
/// item count and order match the cache, and item identifiers equal the
/// articles' links.
pub proof fn lemma_feed_items_shape(arts: Seq<ArticleV>)
    ensures
        spec_feed_items(arts).len() == arts.len(),
        forall|j: int|
            0 <= j < arts.len() ==> #[trigger] spec_feed_items(arts)[j] == rss_item_of(
                arts[j].headline,
                arts[j].link,
                spec_rfc2822(arts[j].date),
                arts[j].body,
            ),
{
}

/// Serving the same feed twice between refresh cycles yields
/// byte-identical documents: the response is a function of the feed
/// title and the cached articles alone.
pub proof fn lemma_feed_deterministic(
    name: Seq<char>,
    arts: Seq<ArticleV>,
    x: Seq<char>,
    y: Seq<char>,
)
    requires
        x == channel_xml_of(name, spec_feed_items(arts)),
        y == channel_xml_of(name, spec_feed_items(arts)),
    ensures
        x == y,
{
}

} // verus!
