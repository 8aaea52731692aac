use vstd::prelude::*;

verus! {

/// What the url crate computes for a base and a possibly relative
/// reference: the serialized absolute URL of the reference resolved
/// against the base, or nothing when the base does not parse or the
/// reference cannot be resolved against it.
pub uninterp spec fn url_join_of(base: Seq<char>, path: Seq<char>) -> Option<Seq<char>>;

/// The serialized form of the input parsed as an absolute URL, or nothing
/// when it is none.
pub uninterp spec fn url_parse_of(s: Seq<char>) -> Option<Seq<char>>;

/// Relies on url::Url::parse and url::Url::join: the reference resolved
/// against the base, reserialized.
#[verifier::external_body]
pub fn url_join(base: &str, path: &str) -> (r: Option<String>)
    ensures
        ({
            let o = url_join_of(base@, path@);
            match r {
                Some(u) => o == Some(u@),
                None => o is None,
            }
        }),
{
    match url::Url::parse(base) {
        Ok(b) => match b.join(path) {
            Ok(u) => Some(u.as_str().to_string()),
            Err(_) => None,
        },
        Err(_) => None,
    }
}

/// Relies on url::Url::parse: the input parsed as an absolute URL,
/// reserialized.
#[verifier::external_body]
pub fn url_parse(s: &str) -> (r: Option<String>)
    ensures
        ({
            let o = url_parse_of(s@);
            match r {
                Some(u) => o == Some(u@),
                None => o is None,
            }
        }),
{
    match url::Url::parse(s) {
        Ok(u) => Some(u.as_str().to_string()),
        Err(_) => None,
    }
}

} // verus!
