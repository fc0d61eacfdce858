//! The request target and its query.

use vstd::prelude::*;

verus! {

/// The request target of an HTTP request.
#[verifier::external_type_specification]
#[verifier::external_body]
pub struct ExUri(hyper::Uri);

/// The query component of a request target: the text after the question
/// mark, where there is one.
pub uninterp spec fn uri_query(uri: hyper::Uri) -> Option<Seq<char>>;

/// The names and values that a query in the form-urlencoded syntax lists,
/// percent-decoded, in their order.
pub uninterp spec fn form_pairs(query: Seq<char>) -> Seq<(Seq<char>, Seq<char>)>;

/// The models of a list of names and values.
pub open spec fn pairs_view(pairs: Seq<(String, String)>) -> Seq<(Seq<char>, Seq<char>)> {
    Seq::new(pairs.len(), |i: int| (pairs[i].0@, pairs[i].1@))
}

/// The model of an optional text.
pub open spec fn text_option_view(text: Option<&str>) -> Option<Seq<char>> {
    match text {
        Some(t) => Some(t@),
        None => None,
    }
}

/// Calls `Uri::query` of hyper (defined in the `http` crate): the query
/// component of the request target, which is a function of the target
/// alone. The contract gives that result its name and claims nothing else.
#[verifier::external_body]
pub(crate) fn query_of(uri: &hyper::Uri) -> (query: Option<&str>)
    ensures
        text_option_view(query) == uri_query(*uri),
{
    uri.query()
}

/// Calls `form_urlencoded::parse` of the `url` crate on the bytes of the
/// query and collects the pairs that its iterator yields, as owned strings.
/// The pairs are a function of the query alone; the contract gives them
/// their name and claims nothing else.
#[verifier::external_body]
pub(crate) fn parse_query(query: &str) -> (pairs: Vec<(String, String)>)
    ensures
        pairs_view(pairs@) == form_pairs(query@),
{
    url::form_urlencoded::parse(query.as_bytes()).into_owned().collect()
}

} // verus!
