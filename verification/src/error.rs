use vstd::prelude::*;

verus! {

/// The failure conditions of one extraction cycle.
///
/// Any one of these, hit while processing any single article, aborts the
/// extraction of the whole source for that cycle; the cache keeps the last
/// good entry.
#[derive(Clone, Copy, Debug, PartialEq, Eq, Structural)]
pub enum ScrapeError {
    /// A network failure or a non-success HTTP status on a listing or
    /// article fetch. Produced by the caller that performs the fetch and
    /// handed in as the page result.
    Transport,
    /// An expected attribute was absent: an entry's anchor had no `href`,
    /// or a configured image selector matched nothing with a `src`.
    MissingAttribute,
    /// The publication-date text did not match the source's expected
    /// pattern and no fallback recovered it, or the parsed local time does
    /// not exist in the source's time zone.
    DateParse,
    /// A URL could not be parsed or resolved against the source's base URL.
    Url,
    /// A configured structural query is not a parseable selector — a
    /// breach of the source definition, not of the fetched pages.
    Selector,
}

impl ScrapeError {
    /// A short stable description, one per kind.
    pub fn describe(&self) -> (r: &'static str)
        ensures
            r@ == self.spec_describe(),
    {
        match self {
            ScrapeError::Transport => "transport failure",
            ScrapeError::MissingAttribute => "missing attribute",
            ScrapeError::DateParse => "date parse failure",
            ScrapeError::Url => "invalid url",
            ScrapeError::Selector => "invalid selector",
        }
    }

    pub open spec fn spec_describe(self) -> Seq<char> {
        match self {
            ScrapeError::Transport => "transport failure"@,
            ScrapeError::MissingAttribute => "missing attribute"@,
            ScrapeError::DateParse => "date parse failure"@,
            ScrapeError::Url => "invalid url"@,
            ScrapeError::Selector => "invalid selector"@,
        }
    }
}

} // verus!
