//! W3C trace context on requests: which headers carry it, what joins it to a request, and what
//! an attempt at a request is called.
use crate::primitives::views;
use crate::text::{
    chars_of, contains, ends_with, join2, text_contains, text_ends_with, text_is,
};
use http::header::{HeaderMap, HeaderValue};
use vstd::prelude::*;
use vstd::string::*;
use vstd::utf8::{encode_utf8, is_ascii_chars, is_ascii_chars_encode_utf8};

verus! {

/// The header map of the `http` crate.
#[verifier::external_type_specification]
#[verifier::external_body]
#[verifier::reject_recursive_types(T)]
pub struct ExHeaderMap<T>(http::header::HeaderMap<T>);

/// A header value of the `http` crate.
#[verifier::external_type_specification]
#[verifier::external_body]
pub struct ExHeaderValue(http::header::HeaderValue);

/// What a header map holds: for each name, in lower case, its values in order.
pub uninterp spec fn headers_of(headers: HeaderMap<HeaderValue>) -> Map<Seq<char>, Seq<Seq<u8>>>;

/// A character that may stand in a header name: a letter, a digit or one of fifteen signs.
pub open spec fn is_name_char(c: char) -> bool {
    ('a' <= c && c <= 'z') || ('A' <= c && c <= 'Z') || ('0' <= c && c <= '9')
        || c == '!' || c == '#' || c == '$' || c == '%' || c == '&' || c == '\''
        || c == '*' || c == '+' || c == '-' || c == '.' || c == '^' || c == '_'
        || c == '`' || c == '|' || c == '~'
}

/// A text that is a header name.
pub open spec fn is_name(s: Seq<char>) -> bool {
    0 < s.len() <= 65535 && forall|i: int| 0 <= i < s.len() ==> is_name_char(#[trigger] s[i])
}

/// An ASCII letter in lower case; any other character as it is.
pub open spec fn lower_char(c: char) -> char {
    if 'A' <= c && c <= 'Z' {
        ((c as u32) + 32) as char
    } else {
        c
    }
}

/// A header name as the map keeps it.
pub open spec fn lower(s: Seq<char>) -> Seq<char> {
    s.map_values(|c: char| lower_char(c))
}

/// A text that is a header value: it holds no control character but the tab.
pub open spec fn is_value(s: Seq<char>) -> bool {
    forall|i: int| 0 <= i < s.len() ==> (' ' <= #[trigger] s[i] && s[i] != '\x7f') || s[i] == '\t'
}

/// Bytes that can be read as text: visible ASCII, the space and the tab.
pub open spec fn is_visible(bytes: Seq<u8>) -> bool {
    forall|i: int| 0 <= i < bytes.len() ==> (32 <= #[trigger] bytes[i] < 127) || bytes[i] == 9
}

/// `HeaderName::from_bytes` of the `http` crate: it accepts the bytes of a name that is not
/// empty, has at most 65535 bytes and holds only letters, digits and the signs of a token.
#[verifier::external_body]
fn name_is_valid(name: &str) -> (r: bool)
    ensures
        r == is_name(name@),
{
    http::header::HeaderName::from_bytes(name.as_bytes()).is_ok()
}

/// `HeaderValue::from_str` of the `http` crate: it accepts a text whose bytes are all 32 or more
/// and not 127, or a tab.
#[verifier::external_body]
fn value_is_valid(value: &str) -> (r: bool)
    ensures
        r == is_value(value@),
{
    HeaderValue::from_str(value).is_ok()
}

/// `HeaderMap::insert` of the `http` crate: the name, in lower case, has this value and no other;
/// every other name keeps its values. A map that would grow beyond 32768 slots panics; with
/// fewer than 6554 names it never has to.
#[verifier::external_body]
fn insert_header(headers: &mut HeaderMap<HeaderValue>, name: &str, value: &str)
    requires
        is_name(name@),
        is_value(value@),
        headers_of(*old(headers)).dom().finite(),
        headers_of(*old(headers)).len() < 6554,
    ensures
        headers_of(*final(headers)) == headers_of(*old(headers)).insert(
            lower(name@),
            seq![value.spec_bytes()],
        ),
{
    let name = http::header::HeaderName::from_bytes(name.as_bytes()).unwrap();
    headers.insert(name, HeaderValue::from_str(value).unwrap());
}

/// Takes one field of a trace context into the headers of a request. A name or a value that
/// cannot stand in a header is passed over.
pub fn set_header(headers: &mut HeaderMap<HeaderValue>, key: &str, value: &str)
    requires
        headers_of(*old(headers)).dom().finite(),
        headers_of(*old(headers)).len() < 6554,
    ensures
        headers_of(*final(headers)) == if is_name(key@) && is_value(value@) {
            headers_of(*old(headers)).insert(lower(key@), seq![value.spec_bytes()])
        } else {
            headers_of(*old(headers))
        },
{
    if name_is_valid(key) && value_is_valid(value) {
        insert_header(headers, key, value);
    }
}

/// `HeaderMap::new` of the `http` crate: a map without headers.
#[verifier::external_body]
fn no_headers() -> (headers: HeaderMap<HeaderValue>)
    ensures
        headers_of(headers).dom() == Set::<Seq<char>>::empty(),
{
    HeaderMap::new()
}

/// `HeaderMap::is_empty` of the `http` crate: whether the map has no name.
#[verifier::external_body]
fn has_no_headers(headers: &HeaderMap<HeaderValue>) -> (r: bool)
    ensures
        r == (headers_of(*headers).dom() == Set::<Seq<char>>::empty()),
{
    headers.is_empty()
}

/// `HeaderMap::get` and `HeaderValue::to_str` of the `http` crate: the first value of a name,
/// which is looked up in whatever case, as text; nothing where the name is not there, or where
/// the value holds a byte that is neither visible ASCII, a space nor a tab.
#[verifier::external_body]
fn read_header<'a>(headers: &'a HeaderMap<HeaderValue>, key: &str) -> (r: Option<&'a str>)
    ensures
        match r {
            Some(text) => header_text(headers_of(*headers), key@) == Some(text.spec_bytes()),
            None => header_text(headers_of(*headers), key@) is None,
        },
{
    headers.get(key).and_then(|v| v.to_str().ok())
}

/// `HeaderMap::keys` of the `http` crate: each name once, in lower case, in no order that is
/// promised.
#[verifier::external_body]
fn list_headers(headers: &HeaderMap<HeaderValue>) -> (r: Vec<String>)
    ensures
        views(r@).no_duplicates(),
        forall|name: Seq<char>| #[trigger]
            views(r@).contains(name) <==> headers_of(*headers).contains_key(name),
{
    headers.keys().map(|k| k.as_str().to_string()).collect()
}

/// What the headers say under a name: the bytes of its first value, where they are text.
pub open spec fn header_text(headers: Map<Seq<char>, Seq<Seq<u8>>>, key: Seq<char>) -> Option<
    Seq<u8>,
> {
    if is_name(key) && headers.contains_key(lower(key)) && is_visible(headers[lower(key)][0]) {
        Some(headers[lower(key)][0])
    } else {
        None
    }
}

/// One field of a trace context: a key and a value.
pub type Field = (String, String);

/// The headers once the fields of a trace context are in them, one after the other.
pub open spec fn with_fields(
    headers: Map<Seq<char>, Seq<Seq<u8>>>,
    fields: Seq<Field>,
) -> Map<Seq<char>, Seq<Seq<u8>>>
    decreases fields.len(),
{
    if fields.len() == 0 {
        headers
    } else {
        let before = with_fields(headers, fields.drop_last());
        let (key, value) = fields.last();
        if is_name(key@) && is_value(value@) {
            before.insert(lower(key@), seq![encode_utf8(value@)])
        } else {
            before
        }
    }
}

/// Takes the fields of a trace context into the headers of a request.
pub fn set_headers(headers: &mut HeaderMap<HeaderValue>, fields: &Vec<Field>)
    requires
        headers_of(*old(headers)).dom().finite(),
        headers_of(*old(headers)).len() + fields@.len() <= 6554,
    ensures
        headers_of(*final(headers)) == with_fields(headers_of(*old(headers)), fields@),
{
    let ghost before = headers_of(*headers);
    assert(fields@.take(0) =~= Seq::<Field>::empty());
    let mut i: usize = 0;
    while i < fields.len()
        invariant
            i <= fields@.len(),
            before.len() + fields@.len() <= 6554,
            headers_of(*headers) == with_fields(before, fields@.take(i as int)),
            headers_of(*headers).dom().finite(),
            headers_of(*headers).len() <= before.len() + i,
        decreases fields@.len() - i,
    {
        set_header(headers, fields[i].0.as_str(), fields[i].1.as_str());
        assert(fields@.take(i + 1).drop_last() =~= fields@.take(i as int));
        i = i + 1;
    }
    assert(fields@.take(i as int) =~= fields@);
}

/// The text of a header, where it is there and can be read.
pub fn get_header<'a>(headers: &'a HeaderMap<HeaderValue>, key: &str) -> (r: Option<&'a str>)
    ensures
        match r {
            Some(text) => header_text(headers_of(*headers), key@) == Some(text.spec_bytes()),
            None => header_text(headers_of(*headers), key@) is None,
        },
{
    read_header(headers, key)
}

/// The names of all headers, each once.
pub fn header_names(headers: &HeaderMap<HeaderValue>) -> (r: Vec<String>)
    ensures
        views(r@).no_duplicates(),
        forall|name: Seq<char>| #[trigger]
            views(r@).contains(name) <==> headers_of(*headers).contains_key(name),
{
    list_headers(headers)
}

/// Joins the trace of the active span to every request that leaves through a service.
#[derive(Clone, Copy, Debug, Default)]
pub struct TraceInjectLayer;

/// A service whose requests carry the trace of the active span.
#[derive(Clone, Debug)]
pub struct TraceInjectService<S> {
    pub inner: S,
}

impl TraceInjectLayer {
    /// The service around which this layer is put.
    pub fn layer<S>(&self, inner: S) -> (r: TraceInjectService<S>)
        ensures
            r.inner == inner,
    {
        TraceInjectService { inner }
    }
}

impl<S> TraceInjectService<S> {
    /// The headers to put on each request for the fields of a trace context; none where there is
    /// no trace to carry, so that the request goes out as it is.
    pub fn headers_for(&self, fields: &Vec<Field>) -> (r: Option<HeaderMap<HeaderValue>>)
        requires
            fields@.len() <= 6554,
        ensures
            match r {
                Some(headers) => {
                    &&& headers_of(headers) == with_fields(Map::empty(), fields@)
                    &&& headers_of(headers).dom() != Set::<Seq<char>>::empty()
                },
                None => with_fields(Map::empty(), fields@).dom() == Set::<Seq<char>>::empty(),
            },
    {
        let mut headers = no_headers();
        assert(headers_of(headers) =~= Map::<Seq<char>, Seq<Seq<u8>>>::empty());
        set_headers(&mut headers, fields);
        if has_no_headers(&headers) {
            None
        } else {
            Some(headers)
        }
    }
}

/// Makes the trace of a caller the parent of what is done for its request.
#[derive(Clone, Copy, Debug, Default)]
pub struct TraceContextLayer;

/// A service that works inside the trace of its caller.
#[derive(Clone, Debug)]
pub struct TraceContextService<S> {
    pub inner: S,
}

impl TraceContextLayer {
    /// The service around which this layer is put.
    pub fn layer<S>(&self, inner: S) -> (r: TraceContextService<S>)
        ensures
            r.inner == inner,
    {
        TraceContextService { inner }
    }
}

/// Joins the trace of the active span to every request of the API client.
#[derive(Clone, Copy, Debug)]
pub struct TraceInjectMiddleware;

impl TraceInjectMiddleware {
    /// Puts the fields of a trace context on a request that has headers of its own.
    pub fn inject(&self, headers: &mut HeaderMap<HeaderValue>, fields: &Vec<Field>)
        requires
            headers_of(*old(headers)).dom().finite(),
            headers_of(*old(headers)).len() + fields@.len() <= 6554,
        ensures
            headers_of(*final(headers)) == with_fields(headers_of(*old(headers)), fields@),
    {
        set_headers(headers, fields);
    }
}

/// Gives each attempt at a request of the API client a span of its own.
#[derive(Clone, Copy, Debug)]
pub struct AttemptSpanMiddleware;

/// The kind of an attempt, by which its durations are told apart: the requests that only keep a
/// connection open, execution hints, proofs, and the rest.
pub open spec fn attempt_kind(method: Seq<char>, path: Seq<char>) -> &'static str {
    if method == "HEAD"@ {
        "keepalive"
    } else if ends_with(path, "/getExecutionHint"@) {
        "hint"
    } else if contains(path, "/proof/"@) {
        "proof"
    } else {
        "other"
    }
}

/// What is known of the response to an attempt: its status, and the address that it came from
/// where that is known.
#[derive(Debug)]
pub struct AttemptResponse {
    pub status: u16,
    pub peer: Option<String>,
}

/// What is recorded of an attempt.
#[derive(Debug)]
pub struct AttemptRecord {
    pub outcome: String,
    pub status: Option<u16>,
    pub peer: Option<String>,
}

impl AttemptSpanMiddleware {
    /// The kind of an attempt.
    pub fn kind(&self, method: &str, path: &str) -> (r: &'static str)
        ensures
            r == attempt_kind(method@, path@),
    {
        if text_is(method, "HEAD") {
            return "keepalive";
        }
        let chars = chars_of(path);
        if text_ends_with(&chars, "/getExecutionHint") {
            "hint"
        } else if text_contains(&chars, "/proof/") {
            "proof"
        } else {
            "other"
        }
    }

    /// What is recorded of an attempt that came out with a response, of whatever status, or with
    /// an error.
    pub fn record(&self, result: Result<AttemptResponse, String>) -> (r: AttemptRecord)
        ensures
            match result {
                Ok(response) => {
                    &&& r.outcome@ == "response"@
                    &&& r.status == Some(response.status)
                    &&& r.peer == response.peer
                },
                Err(error) => {
                    &&& r.outcome@ == "error: "@ + error@
                    &&& r.status is None
                    &&& r.peer is None
                },
            },
    {
        match result {
            Ok(response) => AttemptRecord {
                outcome: "response".to_owned(),
                status: Some(response.status),
                peer: response.peer,
            },
            Err(error) => AttemptRecord {
                outcome: join2("error: ", error.as_str()),
                status: None,
                peer: None,
            },
        }
    }
}

/// What was put into a header is read from it again, by its name in whatever case, while no
/// later field has the same name. A value with a character outside ASCII is left out: it can
/// be put into a header but not be read as text.
pub proof fn law_header_reads_back(
    headers: Map<Seq<char>, Seq<Seq<u8>>>,
    key: Seq<char>,
    read_as: Seq<char>,
    value: Seq<char>,
)
    requires
        is_name(key),
        is_name(read_as),
        lower(read_as) == lower(key),
        is_value(value),
        is_ascii_chars(value),
    ensures
        header_text(headers.insert(lower(key), seq![encode_utf8(value)]), read_as) == Some(
            encode_utf8(value),
        ),
{
    is_ascii_chars_encode_utf8(value);
    let bytes = encode_utf8(value);
    assert forall|i: int| 0 <= i < bytes.len() implies (32 <= #[trigger] bytes[i] < 127)
        || bytes[i] == 9 by {
        assert(bytes[i] == value[i] as u8);
        assert((' ' <= value[i] && value[i] != '\x7f') || value[i] == '\t');
    }
}

/// A field touches no other header.
pub proof fn law_other_headers_stay(
    headers: Map<Seq<char>, Seq<Seq<u8>>>,
    fields: Seq<Field>,
    name: Seq<char>,
)
    requires
        forall|i: int| 0 <= i < fields.len() ==> lower((#[trigger] fields[i]).0@) != name,
    ensures
        with_fields(headers, fields).contains_key(name) == headers.contains_key(name),
        headers.contains_key(name) ==> with_fields(headers, fields)[name] == headers[name],
    decreases fields.len(),
{
    if fields.len() > 0 {
        assert forall|i: int| 0 <= i < fields.drop_last().len() implies lower(
            (#[trigger] fields.drop_last()[i]).0@,
        ) != name by {
            assert(fields.drop_last()[i] == fields[i]);
        }
        law_other_headers_stay(headers, fields.drop_last(), name);
        assert(lower(fields[fields.len() - 1].0@) != name);
    }
}

} // verus!
