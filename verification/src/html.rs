use vstd::prelude::*;

verus! {

/// Whether nipper's Matcher::new accepts the structural query: a function
/// of the selector text alone.
pub uninterp spec fn selector_ok(sel: Seq<char>) -> bool;

/// What nipper's selection engine yields on a parsed document for an
/// accepted selector: the markup of each matched node, in document order.
/// A function of the markup and the selector alone.
pub uninterp spec fn select_fragments_of(html: Seq<char>, sel: Seq<char>) -> Seq<Seq<char>>;

/// The combined text content of the selector's matches, in document order.
pub uninterp spec fn select_text_of(html: Seq<char>, sel: Seq<char>) -> Seq<char>;

/// The markup of the selector's first match; empty when nothing matches.
pub uninterp spec fn select_html_of(html: Seq<char>, sel: Seq<char>) -> Seq<char>;

/// The named attribute of the selector's first match, when that match
/// carries it.
pub uninterp spec fn select_attr_of(html: Seq<char>, sel: Seq<char>, attr: Seq<char>) -> Option<
    Seq<char>,
>;

/// Relies on nipper's Matcher::new (which accepts or rejects the selector
/// by its text alone), Document::from, Document::select_matcher,
/// Selection::iter and Node::html: one markup fragment per matched node,
/// in document order; nothing when the selector does not parse.
#[verifier::external_body]
pub fn select_fragments(html: &str, sel: &str) -> (r: Option<Vec<String>>)
    ensures
        r is Some <==> selector_ok(sel@),
        r matches Some(v) ==> v.deep_view() == select_fragments_of(html@, sel@),
{
    match nipper::Matcher::new(sel) {
        Ok(m) => Some(
            nipper::Document::from(html)
                .select_matcher(&m)
                .iter()
                .map(|s| s.html().to_string())
                .collect(),
        ),
        Err(_) => None,
    }
}

/// Relies on nipper's Matcher::new, Document::from,
/// Document::select_matcher and Selection::text: the matches' combined
/// text content; nothing when the selector does not parse.
#[verifier::external_body]
pub fn select_text(html: &str, sel: &str) -> (r: Option<String>)
    ensures
        r is Some <==> selector_ok(sel@),
        r matches Some(v) ==> v@ == select_text_of(html@, sel@),
{
    match nipper::Matcher::new(sel) {
        Ok(m) => Some(nipper::Document::from(html).select_matcher(&m).text().to_string()),
        Err(_) => None,
    }
}

/// Relies on nipper's Matcher::new, Document::from,
/// Document::select_matcher and Selection::html: the first match's
/// markup, empty when nothing matches; nothing when the selector does not
/// parse.
#[verifier::external_body]
pub fn select_html(html: &str, sel: &str) -> (r: Option<String>)
    ensures
        r is Some <==> selector_ok(sel@),
        r matches Some(v) ==> v@ == select_html_of(html@, sel@),
{
    match nipper::Matcher::new(sel) {
        Ok(m) => Some(nipper::Document::from(html).select_matcher(&m).html().to_string()),
        Err(_) => None,
    }
}

/// Relies on nipper's Matcher::new, Document::from,
/// Document::select_matcher and Selection::attr: the first match's
/// attribute value, when present; nothing when the selector does not
/// parse.
#[verifier::external_body]
pub fn select_attr(html: &str, sel: &str, attr: &str) -> (r: Option<Option<String>>)
    ensures
        r is Some <==> selector_ok(sel@),
        r matches Some(o) ==> ({
            let found = select_attr_of(html@, sel@, attr@);
            match o {
                Some(v) => found == Some(v@),
                None => found is None,
            }
        }),
{
    match nipper::Matcher::new(sel) {
        Ok(m) => Some(
            nipper::Document::from(html).select_matcher(&m).attr(attr).map(|t| t.to_string()),
        ),
        Err(_) => None,
    }
}

} // verus!
