//! The addresses of resources, as text.
use vstd::prelude::*;
use vstd::utf8::encode_utf8;

verus! {

/// What a text or an error says.
pub open spec fn text_result(r: Result<String, String>) -> Result<Seq<char>, Seq<char>> {
    match r {
        Ok(text) => Ok(text@),
        Err(error) => Err(error@),
    }
}

/// What `url::Url::join` gives for a path below a base: the text of the URL, or that of the
/// error, which may also be the error of reading the base.
pub uninterp spec fn joined_url(base: Seq<char>, path: Seq<char>) -> Result<Seq<char>, Seq<char>>;

/// `url::Url::join` on the base read by `url::Url::parse`: the base and the path decide the URL
/// or the error, whose text the name stands for.
#[verifier::external_body]
pub(crate) fn join_url(base: &str, path: &str) -> (r: Result<String, String>)
    ensures
        text_result(r) == joined_url(base@, path@),
{
    match url::Url::parse(base) {
        Ok(base) => match base.join(path) {
            Ok(url) => Ok(url.to_string()),
            Err(error) => Err(error.to_string()),
        },
        Err(error) => Err(error.to_string()),
    }
}

/// A URL in which the query can begin at the end: the place is counted in 32 bits.
pub open spec fn takes_query(url: Seq<char>) -> bool {
    encode_utf8(url).len() <= u32::MAX
}

/// What `append_pair` on `url::Url::query_pairs_mut` makes of the URL that a path below a base
/// gives: its text with the pair at the end of its query, or the text of the error of reading
/// the base or joining the path.
pub uninterp spec fn joined_url_with_pair(
    base: Seq<char>,
    path: Seq<char>,
    name: Seq<char>,
    value: Seq<char>,
) -> Result<Seq<char>, Seq<char>>;

/// `append_pair` on `url::Url::query_pairs_mut`, on the URL that `url::Url::join` gives: the
/// base, the path, the name and the value decide the text or the error, which the name stands
/// for; the error is that of the joining. It panics where a URL without a query is longer than 32 bits can count; only on a URL
/// with a fragment can it panic elsewhere, and a path without a `#` gives none.
#[verifier::external_body]
pub(crate) fn join_with_pair(base: &str, path: &str, name: &str, value: &str) -> (r: Result<
    String,
    String,
>)
    requires
        !path@.contains('#'),
        joined_url(base@, path@) matches Ok(url) ==> takes_query(url),
    ensures
        text_result(r) == joined_url_with_pair(base@, path@, name@, value@),
        r is Ok <==> joined_url(base@, path@) is Ok,
        joined_url(base@, path@) is Err ==> text_result(r) == joined_url(base@, path@),
{
    match url::Url::parse(base) {
        Ok(base) => match base.join(path) {
            Ok(mut url) => {
                url.query_pairs_mut().append_pair(name, value);
                Ok(url.to_string())
            },
            Err(error) => Err(error.to_string()),
        },
        Err(error) => Err(error.to_string()),
    }
}

} // verus!
