//! The parts of the `url` crate that the library calls, with what it relies on.
use vstd::prelude::*;

verus! {

#[verifier::external_type_specification]
#[verifier::external_body]
pub struct ExUrl(url::Url);

#[verifier::external_type_specification]
#[verifier::external_body]
pub struct ExParseError(url::ParseError);

/// Relies on `url::ParseError` being `Copy`: a clone is the same value.
pub assume_specification[ <url::ParseError as Clone>::clone ](e: &url::ParseError) -> (r: url::ParseError)
    ensures
        r == *e,
;

/// The serialization of a parsed URL: what `as_str` shows, and what
/// equality and ordering of URLs go by.
pub uninterp spec fn url_text(u: url::Url) -> Seq<char>;

/// The serialization that parsing `input` as an absolute URL yields,
/// or `None` where the input is rejected.
pub uninterp spec fn parsed_text(input: Seq<char>) -> Option<Seq<char>>;

/// The key/value pairs, decoded and in string order, of the query of the
/// URL serialized as `text`.
pub uninterp spec fn query_pairs_of(text: Seq<char>) -> Seq<(Seq<char>, Seq<char>)>;

/// The serialization after the query of the URL serialized as `text` is
/// emptied.
pub uninterp spec fn query_cleared(text: Seq<char>) -> Seq<char>;

/// The serialization after the pair `(key, value)` is encoded and appended
/// to the query of the URL serialized as `text`.
pub uninterp spec fn query_pair_appended(text: Seq<char>, key: Seq<char>, value: Seq<char>) -> Seq<char>;

/// The placeholder `none:`: a scheme that is not one of the special ones,
/// followed by an empty opaque path.
pub open spec fn placeholder_text() -> Seq<char> {
    seq!['n', 'o', 'n', 'e', ':']
}

/// Relies on `url::Url::parse`: it succeeds exactly on the inputs that name
/// an absolute URL; an empty input names none (it is a relative reference
/// with no base), and `none:` parses to itself.
#[verifier::external_body]
pub(crate) fn url_parse(input: &str) -> (r: Result<url::Url, url::ParseError>)
    ensures
        r is Ok <==> parsed_text(input@) is Some,
        r is Ok ==> url_text(r->Ok_0) == parsed_text(input@)->Some_0,
        input@.len() == 0 ==> r is Err,
        input@ == placeholder_text() ==> r is Ok && url_text(r->Ok_0) == placeholder_text(),
{
    url::Url::parse(input)
}

/// Relies on `url::Url::as_str`: the serialization, borrowed.
#[verifier::external_body]
pub(crate) fn url_as_str(u: &url::Url) -> (r: &str)
    ensures
        r@ == url_text(*u),
{
    u.as_str()
}

/// Relies on the derived `Clone` of `url::Url`: a copy of every field, the
/// serialization among them.
pub assume_specification[ <url::Url as Clone>::clone ](u: &url::Url) -> (r: url::Url)
    ensures
        url_text(r) == url_text(*u),
;

/// Relies on `impl PartialEq for url::Url`: URLs compare like their
/// serialization.
#[verifier::external_body]
pub(crate) fn url_eq(a: &url::Url, b: &url::Url) -> (r: bool)
    ensures
        r == (url_text(*a) == url_text(*b)),
{
    a == b
}

/// Relies on `url::Url::query_pairs`: the query's pairs, decoded, in the
/// order in which they stand.
#[verifier::external_body]
pub(crate) fn url_query_pairs(u: &url::Url) -> (r: Vec<(String, String)>)
    ensures
        r@.map_values(|p: (String, String)| (p.0@, p.1@)) == query_pairs_of(url_text(*u)),
{
    u.query_pairs().map(|(k, v)| (k.into_owned(), v.into_owned())).collect()
}

/// Relies on `url::form_urlencoded::Serializer::clear` over
/// `url::Url::query_pairs_mut`: the query is emptied (the fragment, taken
/// off while the serializer lives, is put back when it is dropped).
#[verifier::external_body]
pub(crate) fn url_clear_query(u: &mut url::Url)
    ensures
        url_text(*final(u)) == query_cleared(url_text(*old(u))),
{
    u.query_pairs_mut().clear();
}

/// Relies on `url::form_urlencoded::Serializer::append_pair` over
/// `url::Url::query_pairs_mut`: one encoded pair is added at the end of the
/// query, after a `&` where the query is not empty.
#[verifier::external_body]
pub(crate) fn url_append_query_pair(u: &mut url::Url, key: &str, value: &str)
    ensures
        url_text(*final(u)) == query_pair_appended(url_text(*old(u)), key@, value@),
{
    u.query_pairs_mut().append_pair(key, value);
}

} // verus!
