//! HTTP search adapter: shapes a Meilisearch/ES-class REST index API over a
//! sync HTTP poster that applications supply.

use vstd::prelude::*;

use crate::search::document::{field_views, SearchDocument, SearchError};
use crate::search::index::{is_empty_id_error, validate_id, DocumentIndex};
use crate::search::query::{hit_view, hit_views, SearchHit, SearchQuery};
use crate::text::{
    chars_of, decimal, decimal_chars, push_all, string_of, sub_chars, trim, trim_chars,
    utf8_size, utf8_width, utf8_width_of,
};

verus! {

/// HTTP method used by a [`SearchHttpPoster`].
#[derive(Debug, Clone, Copy, PartialEq, Eq, Structural)]
pub enum SearchHttpMethod {
    /// HTTP PUT.
    Put,
    /// HTTP POST.
    Post,
    /// HTTP DELETE.
    Delete,
}

impl SearchHttpMethod {
    /// Upper-case method name.
    pub fn as_str(self) -> (r: &'static str)
        ensures
            self is Put ==> r@ == "PUT"@,
            self is Post ==> r@ == "POST"@,
            self is Delete ==> r@ == "DELETE"@,
    {
        match self {
            SearchHttpMethod::Put => "PUT",
            SearchHttpMethod::Post => "POST",
            SearchHttpMethod::Delete => "DELETE",
        }
    }
}

/// `s` without its trailing slashes.
pub open spec fn without_trailing_slashes(s: Seq<char>) -> Seq<char>
    decreases s.len(),
{
    if s.len() > 0 && s.last() == '/' {
        without_trailing_slashes(s.drop_last())
    } else {
        s
    }
}

/// `url` without its trailing slashes.
pub fn trim_trailing_slash(url: &str) -> (r: String)
    ensures
        r@ == without_trailing_slashes(url@),
{
    let c = chars_of(url);
    let mut b: usize = c.len();
    assert(c@.take(b as int) =~= c@);
    while b > 0
        invariant
            0 <= b <= c@.len(),
            without_trailing_slashes(url@) == without_trailing_slashes(c@.take(b as int)),
        ensures
            0 <= b <= c@.len(),
            without_trailing_slashes(url@) == c@.take(b as int),
        decreases b,
    {
        if c[b - 1] != '/' {
            break;
        }
        assert(c@.take(b as int).drop_last() =~= c@.take(b - 1));
        b = b - 1;
    }
    let kept = sub_chars(c.as_slice(), 0, b);
    assert(kept@ =~= c@.take(b as int));
    string_of(kept.as_slice())
}

/// Base URL and optional Bearer API key for an HTTP search engine.
#[derive(Debug, Clone, PartialEq, Eq)]
pub struct HttpSearchConfig {
    base_url: String,
    api_key: Option<String>,
}

/// The characters of an optional string.
pub open spec fn opt_view(s: Option<String>) -> Option<Seq<char>> {
    match s {
        Some(k) => Some(k@),
        None => None,
    }
}

impl HttpSearchConfig {
    /// Base URL, without trailing slashes.
    pub closed spec fn spec_base_url(&self) -> Seq<char> {
        self.base_url@
    }

    /// Bearer API key when configured.
    pub closed spec fn spec_api_key(&self) -> Option<Seq<char>> {
        opt_view(self.api_key)
    }

    /// Creates a config for `base_url`; trailing slashes are dropped.
    pub fn new(base_url: &str) -> (r: Self)
        ensures
            r.spec_base_url() == without_trailing_slashes(base_url@),
            r.spec_api_key() is None,
    {
        HttpSearchConfig { base_url: trim_trailing_slash(base_url), api_key: None }
    }

    /// Sets the Bearer API key, replacing any earlier one.
    pub fn api_key(self, api_key: &str) -> (r: Self)
        ensures
            r.spec_base_url() == self.spec_base_url(),
            r.spec_api_key() == Some(api_key@),
    {
        HttpSearchConfig { base_url: self.base_url, api_key: Some(api_key.to_owned()) }
    }

    /// Base URL without a trailing slash.
    pub fn base_url(&self) -> (r: &str)
        ensures
            r@ == self.spec_base_url(),
    {
        self.base_url.as_str()
    }

    /// Bearer API key when configured.
    pub fn api_key_value(&self) -> (r: Option<&str>)
        ensures
            match r {
                Some(k) => self.spec_api_key() == Some(k@),
                None => self.spec_api_key() is None,
            },
    {
        match &self.api_key {
            Some(k) => Some(k.as_str()),
            None => None,
        }
    }

    /// `{base}` followed by `suffix`.
    fn url_with(&self, suffix: &str) -> (r: String)
        ensures
            r@ == self.spec_base_url() + suffix@,
    {
        let mut out = chars_of(self.base_url.as_str());
        let tail = chars_of(suffix);
        push_all(&mut out, tail.as_slice());
        string_of(out.as_slice())
    }

    /// Document URL for `id`: `{base}/documents/{id}`.
    pub fn document_url(&self, id: &str) -> (r: String)
        ensures
            r@ == self.spec_base_url() + "/documents/"@ + id@,
    {
        let mut out = chars_of(self.base_url.as_str());
        let mid = chars_of("/documents/");
        let tail = chars_of(id);
        push_all(&mut out, mid.as_slice());
        push_all(&mut out, tail.as_slice());
        string_of(out.as_slice())
    }

    /// Documents collection URL: `{base}/documents`.
    pub fn documents_url(&self) -> (r: String)
        ensures
            r@ == self.spec_base_url() + "/documents"@,
    {
        self.url_with("/documents")
    }

    /// Search URL: `{base}/search`.
    pub fn search_url(&self) -> (r: String)
        ensures
            r@ == self.spec_base_url() + "/search"@,
    {
        self.url_with("/search")
    }
}

/// HTTP response returned by a [`SearchHttpPoster`].
#[derive(Debug, Clone, PartialEq, Eq)]
pub struct SearchHttpResponse {
    status: u16,
    body: String,
}

impl SearchHttpResponse {
    /// HTTP status code.
    pub closed spec fn spec_status(&self) -> u16 {
        self.status
    }

    /// Response body text.
    pub closed spec fn spec_body(&self) -> Seq<char> {
        self.body@
    }

    /// Creates a response with HTTP `status` and `body`.
    pub fn new(status: u16, body: &str) -> (r: Self)
        ensures
            r.spec_status() == status,
            r.spec_body() == body@,
    {
        SearchHttpResponse { status, body: body.to_owned() }
    }

    /// HTTP status code.
    pub fn status(&self) -> (r: u16)
        ensures
            r == self.spec_status(),
    {
        self.status
    }

    /// Response body text.
    pub fn body(&self) -> (r: &str)
        ensures
            r@ == self.spec_body(),
    {
        self.body.as_str()
    }

    /// Whether the status is in the 2xx success range.
    pub fn is_success(&self) -> (r: bool)
        ensures
            r == (200 <= self.spec_status() < 300),
    {
        self.status >= 200 && self.status < 300
    }

    /// A copy of this response.
    pub fn duplicate(&self) -> (r: Self)
        ensures
            r.spec_status() == self.spec_status(),
            r.spec_body() == self.spec_body(),
    {
        SearchHttpResponse { status: self.status, body: self.body.clone() }
    }
}

/// Most bytes of a response body quoted in an error message.
pub const EXCERPT_BYTES: usize = 200;

/// Whether `s.take(p)` is the longest prefix of `s` that fits in `n` bytes.
pub open spec fn longest_fitting(s: Seq<char>, n: nat, p: int) -> bool {
    &&& 0 <= p <= s.len()
    &&& utf8_size(s.take(p)) <= n
    &&& (p == s.len() || utf8_size(s.take(p + 1)) > n)
}

/// The trimmed body, cut to its longest prefix of whole characters within
/// [`EXCERPT_BYTES`] bytes and marked with `...` when it was longer.
pub open spec fn body_excerpt(body: Seq<char>) -> Seq<char> {
    let t = trim(body);
    if utf8_size(t) <= EXCERPT_BYTES {
        t
    } else {
        t.take(choose|p: int| longest_fitting(t, EXCERPT_BYTES as nat, p)) + "..."@
    }
}

proof fn lemma_utf8_size_take_monotone(s: Seq<char>, i: int, j: int)
    requires
        0 <= i <= j <= s.len(),
    ensures
        utf8_size(s.take(i)) <= utf8_size(s.take(j)),
    decreases j - i,
{
    if i < j {
        assert(s.take(j).drop_last() =~= s.take(j - 1));
        lemma_utf8_size_take_monotone(s, i, j - 1);
    }
}

/// At most one prefix length is the longest fitting one.
proof fn lemma_longest_fitting_unique(s: Seq<char>, n: nat, p: int, q: int)
    requires
        longest_fitting(s, n, p),
        longest_fitting(s, n, q),
    ensures
        p == q,
{
    if p < q {
        lemma_utf8_size_take_monotone(s, p + 1, q);
    } else if q < p {
        lemma_utf8_size_take_monotone(s, q + 1, p);
    }
}

/// The excerpt of a response body quoted in error messages.
pub fn truncate_body(body: &str) -> (r: String)
    ensures
        r@ == body_excerpt(body@),
{
    let c = chars_of(body);
    let t = trim_chars(c.as_slice());
    let mut size: usize = 0;
    let mut p: usize = 0;
    assert(t@.take(0) =~= Seq::<char>::empty());
    while p < t.len()
        invariant
            0 <= p <= t@.len(),
            size == utf8_size(t@.take(p as int)),
            size <= EXCERPT_BYTES,
        ensures
            0 <= p <= t@.len(),
            size == utf8_size(t@.take(p as int)),
            size <= EXCERPT_BYTES,
            p < t@.len() ==> utf8_size(t@.take(p + 1)) > EXCERPT_BYTES,
        decreases t@.len() - p,
    {
        let w = utf8_width_of(t[p]);
        proof {
            assert(t@.take(p + 1).drop_last() =~= t@.take(p as int));
        }
        if size + w > EXCERPT_BYTES {
            break;
        }
        size = size + w;
        p = p + 1;
    }
    if p == t.len() {
        assert(t@.take(p as int) =~= t@);
        string_of(t.as_slice())
    } else {
        proof {
            lemma_utf8_size_take_monotone(t@, p + 1, t@.len() as int);
            assert(t@.take(t@.len() as int) =~= t@);
            let q = choose|q: int| longest_fitting(t@, EXCERPT_BYTES as nat, q);
            assert(longest_fitting(t@, EXCERPT_BYTES as nat, p as int));
            lemma_longest_fitting_unique(t@, EXCERPT_BYTES as nat, p as int, q);
        }
        let mut out = sub_chars(t.as_slice(), 0, p);
        assert(out@ =~= t@.take(p as int));
        let dots = chars_of("...");
        push_all(&mut out, dots.as_slice());
        string_of(out.as_slice())
    }
}

/// Message of the error for an unsuccessful response.
pub open spec fn failure_message(status: u16, body: Seq<char>) -> Seq<char> {
    "search HTTP "@ + decimal(status as nat) + " "@ + body_excerpt(body)
}

/// Whether `e` is an index error whose message is `m`.
pub open spec fn is_index_error(e: SearchError, m: Seq<char>) -> bool {
    &&& e matches SearchError::Index { message }
    &&& e->Index_message@ == m
}

/// `Ok` for a 2xx response, else an index error naming the status and an
/// excerpt of the body.
pub fn require_success(response: &SearchHttpResponse) -> (r: Result<(), SearchError>)
    ensures
        200 <= response.spec_status() < 300 ==> r is Ok,
        !(200 <= response.spec_status() < 300) ==> (r matches Err(e) && is_index_error(
            e,
            failure_message(response.spec_status(), response.spec_body()),
        )),
{
    if response.is_success() {
        return Ok(());
    }
    let mut msg = chars_of("search HTTP ");
    let code = decimal_chars(response.status() as u128);
    push_all(&mut msg, code.as_slice());
    let gap = chars_of(" ");
    push_all(&mut msg, gap.as_slice());
    let excerpt = truncate_body(response.body());
    let ex = chars_of(excerpt.as_str());
    push_all(&mut msg, ex.as_slice());
    Err(SearchError::Index { message: string_of(msg.as_slice()) })
}

/// The bytes `serde_json::to_vec` writes for the object
/// `{"id": id, "fields": {name: value, ...}}`.
pub uninterp spec fn document_json_bytes(id: Seq<char>, fields: Seq<(Seq<char>, Seq<char>)>) -> Seq<u8>;

/// The bytes `serde_json::to_vec` writes for the object
/// `{"q": text, "offset": offset}`, with `"limit": limit` added when a limit is set.
pub uninterp spec fn query_json_bytes(text: Seq<char>, offset: usize, limit: Option<usize>) -> Seq<u8>;

/// What `serde_json::from_str` followed by reading the boolean member
/// `deleted` yields for `text`: `None` when `text` is not JSON or has no
/// boolean `deleted`.
pub uninterp spec fn json_deleted_flag(text: Seq<char>) -> Option<bool>;

/// What `serde_json::from_str` yields for `text`, read as a hits reply: the
/// error's text when `text` is not JSON; `None` when it has no array member
/// `hits`; else, for each hit, its string `id` and unsigned integer `score`
/// when present.
pub uninterp spec fn json_hit_fields(text: Seq<char>) -> Result<Option<Seq<(Option<Seq<char>>, Option<u64>)>>, Seq<char>>;

/// A hit as read from a JSON reply: its `id` and `score` when present.
pub type RawHit = (Option<String>, Option<u64>);

/// The plain values of a parsed hits reply.
pub open spec fn raw_hits_view(r: Result<Option<Vec<RawHit>>, String>) -> Result<Option<Seq<(Option<Seq<char>>, Option<u64>)>>, Seq<char>> {
    match r {
        Err(m) => Err(m@),
        Ok(None) => Ok(None),
        Ok(Some(v)) => Ok(Some(raw_items_view(v@))),
    }
}

/// The plain values of parsed hits.
pub open spec fn raw_items_view(v: Seq<RawHit>) -> Seq<(Option<Seq<char>>, Option<u64>)> {
    v.map_values(|h: RawHit| (opt_view(h.0), h.1))
}

/// `serde_json::to_vec` of the document object.
#[verifier::external_body]
fn encode_document(id: &str, fields: &Vec<(String, String)>) -> (r: Vec<u8>)
    ensures
        r@ == document_json_bytes(id@, fields.deep_view()),
{
    let mut inner = serde_json::Map::new();
    for (name, value) in fields {
        inner.insert(name.clone(), serde_json::Value::String(value.clone()));
    }
    let mut outer = serde_json::Map::new();
    outer.insert("id".to_owned(), serde_json::Value::String(id.to_owned()));
    outer.insert("fields".to_owned(), serde_json::Value::Object(inner));
    serde_json::to_vec(&serde_json::Value::Object(outer)).unwrap_or_default()
}

/// `serde_json::to_vec` of the query object.
#[verifier::external_body]
fn encode_query(text: &str, offset: usize, limit: Option<usize>) -> (r: Vec<u8>)
    ensures
        r@ == query_json_bytes(text@, offset, limit),
{
    let mut map = serde_json::Map::new();
    map.insert("q".to_owned(), serde_json::Value::String(text.to_owned()));
    map.insert("offset".to_owned(), serde_json::Value::from(offset));
    if let Some(limit) = limit {
        map.insert("limit".to_owned(), serde_json::Value::from(limit));
    }
    serde_json::to_vec(&serde_json::Value::Object(map)).unwrap_or_default()
}

/// `serde_json::from_str`, then the boolean member `deleted`.
#[verifier::external_body]
fn decode_deleted(text: &str) -> (r: Option<bool>)
    ensures
        r == json_deleted_flag(text@),
{
    let value: serde_json::Value = serde_json::from_str(text).ok()?;
    value.get("deleted").and_then(serde_json::Value::as_bool)
}

/// `serde_json::from_str`, then the `id` and `score` of each member of `hits`.
#[verifier::external_body]
fn decode_hits(text: &str) -> (r: Result<Option<Vec<RawHit>>, String>)
    ensures
        raw_hits_view(r) == json_hit_fields(text@),
{
    let value: serde_json::Value = serde_json::from_str(text).map_err(|e| e.to_string())?;
    let Some(hits) = value.get("hits").and_then(serde_json::Value::as_array) else {
        return Ok(None);
    };
    Ok(Some(hits.iter().map(|h| (
        h.get("id").and_then(serde_json::Value::as_str).map(str::to_owned),
        h.get("score").and_then(serde_json::Value::as_u64),
    )).collect()))
}

/// The request body that upserts `document`.
pub fn document_json(document: &SearchDocument) -> (r: Vec<u8>)
    ensures
        r@ == document_json_bytes(document.spec_id(), document.spec_fields()),
{
    let fields = document.fields();
    assert(fields.deep_view() =~= field_views(fields@));
    encode_document(document.id(), fields)
}

/// The request body that runs `query`.
pub fn query_json(query: &SearchQuery) -> (r: Vec<u8>)
    ensures
        r@ == query_json_bytes(query.spec_text(), query.spec_offset(), query.spec_limit()),
{
    encode_query(query.text(), query.offset(), query.limit())
}

/// The trimmed body as text.
fn trimmed_text(body: &str) -> (r: String)
    ensures
        r@ == trim(body@),
{
    let c = chars_of(body);
    let t = trim_chars(c.as_slice());
    string_of(t.as_slice())
}

/// The `deleted` flag of a reply body: `None` for a blank body or one
/// without a boolean `deleted`.
pub fn parse_deleted(body: &str) -> (r: Option<bool>)
    ensures
        r == if trim(body@).len() == 0 {
            None
        } else {
            json_deleted_flag(trim(body@))
        },
{
    let t = trimmed_text(body);
    if t.as_str().is_empty() {
        return None;
    }
    decode_deleted(t.as_str())
}

/// The score a hit carries: its value saturated at `u32::MAX`, or zero.
pub open spec fn raw_score(s: Option<u64>) -> u32 {
    match s {
        Some(n) => if n > u32::MAX {
            u32::MAX
        } else {
            n as u32
        },
        None => 0,
    }
}

/// The id a hit carries, empty when absent.
pub open spec fn raw_id(s: Option<Seq<char>>) -> Seq<char> {
    match s {
        Some(x) => x,
        None => Seq::empty(),
    }
}

/// Hits of a parsed reply as `(id, score)`, or the message of the index
/// error it gives.
pub open spec fn hits_outcome(parsed: Result<Option<Seq<(Option<Seq<char>>, Option<u64>)>>, Seq<char>>) -> Result<Seq<(Seq<char>, u32)>, Seq<char>> {
    match parsed {
        Err(m) => Err("search HTTP JSON: "@ + m),
        Ok(None) => Err("search HTTP response missing hits array"@),
        Ok(Some(items)) => if exists|i: int| 0 <= i < items.len() && (#[trigger] items[i]).0 is None {
            Err("search hit missing id"@)
        } else {
            Ok(items.map_values(|h: (Option<Seq<char>>, Option<u64>)| (raw_id(h.0), raw_score(h.1))))
        },
    }
}

/// Whether `r` is the search result `outcome` describes.
pub open spec fn matches_outcome(r: Result<Vec<SearchHit>, SearchError>, outcome: Result<Seq<(Seq<char>, u32)>, Seq<char>>) -> bool {
    match outcome {
        Ok(h) => r matches Ok(v) && hit_views(v@) == h,
        Err(m) => r matches Err(e) && is_index_error(e, m),
    }
}

/// Turns a parsed hits reply into hits or an index error.
pub fn hits_from_json(parsed: Result<Option<Vec<RawHit>>, String>) -> (r: Result<Vec<SearchHit>, SearchError>)
    ensures
        matches_outcome(r, hits_outcome(raw_hits_view(parsed))),
{
    match parsed {
        Err(m) => {
            let mut msg = chars_of("search HTTP JSON: ");
            let tail = chars_of(m.as_str());
            push_all(&mut msg, tail.as_slice());
            Err(SearchError::Index { message: string_of(msg.as_slice()) })
        },
        Ok(None) => Err(SearchError::Index { message: "search HTTP response missing hits array".to_owned() }),
        Ok(Some(items)) => {
            let ghost view = raw_items_view(items@);
            let mut out: Vec<SearchHit> = Vec::new();
            let mut i: usize = 0;
            while i < items.len()
                invariant
                    view == raw_items_view(items@),
                    raw_hits_view(parsed) == Ok::<Option<Seq<(Option<Seq<char>>, Option<u64>)>>, Seq<char>>(Some(view)),
                    0 <= i <= items@.len(),
                    forall|j: int| 0 <= j < i ==> (#[trigger] view[j]).0 is Some,
                    out@.len() == i,
                    forall|j: int| 0 <= j < i ==> hit_view(#[trigger] out@[j]) == (raw_id(view[j].0), raw_score(view[j].1)),
                decreases items@.len() - i,
            {
                let (id, score) = &items[i];
                match id {
                    Some(id) => {
                        let s: u32 = match score {
                            Some(n) => if *n > 4294967295u64 {
                                4294967295u32
                            } else {
                                *n as u32
                            },
                            None => 0,
                        };
                        out.push(SearchHit::new(id.as_str(), s));
                    },
                    None => {
                        assert(view[i as int].0 is None);
                        return Err(SearchError::Index { message: "search hit missing id".to_owned() });
                    },
                }
                i = i + 1;
            }
            proof {
                assert(hit_views(out@) =~= view.map_values(|h: (Option<Seq<char>>, Option<u64>)| (raw_id(h.0), raw_score(h.1))));
            }
            Ok(out)
        },
    }
}

/// Hits of a reply body: none for a blank body, else those of its JSON.
pub fn parse_hits(body: &str) -> (r: Result<Vec<SearchHit>, SearchError>)
    ensures
        trim(body@).len() == 0 ==> (r matches Ok(v) && v@.len() == 0),
        trim(body@).len() > 0 ==> matches_outcome(r, hits_outcome(json_hit_fields(trim(body@)))),
{
    let t = trimmed_text(body);
    if t.as_str().is_empty() {
        return Ok(Vec::new());
    }
    hits_from_json(decode_hits(t.as_str()))
}

/// Result of a delete reply: `require_success`, then the `deleted` flag,
/// `true` when the body does not say.
pub fn delete_outcome(response: &SearchHttpResponse) -> (r: Result<bool, SearchError>)
    ensures
        200 <= response.spec_status() < 300 ==> r == Ok::<bool, SearchError>(
            match parse_deleted_spec(response.spec_body()) {
                Some(b) => b,
                None => true,
            },
        ),
        !(200 <= response.spec_status() < 300) ==> (r matches Err(e) && is_index_error(
            e,
            failure_message(response.spec_status(), response.spec_body()),
        )),
{
    match require_success(response) {
        Ok(()) => {},
        Err(e) => return Err(e),
    }
    match parse_deleted(response.body()) {
        Some(b) => Ok(b),
        None => Ok(true),
    }
}

/// The `deleted` flag a reply body carries.
pub open spec fn parse_deleted_spec(body: Seq<char>) -> Option<bool> {
    if trim(body).len() == 0 {
        None
    } else {
        json_deleted_flag(trim(body))
    }
}

/// Result of a query reply: `require_success`, then the hits of its body.
pub fn query_outcome(response: &SearchHttpResponse) -> (r: Result<Vec<SearchHit>, SearchError>)
    ensures
        !(200 <= response.spec_status() < 300) ==> (r matches Err(e) && is_index_error(
            e,
            failure_message(response.spec_status(), response.spec_body()),
        )),
        (200 <= response.spec_status() < 300 && trim(response.spec_body()).len() == 0) ==> (r matches Ok(v) && v@.len() == 0),
        (200 <= response.spec_status() < 300 && trim(response.spec_body()).len() > 0) ==> matches_outcome(
            r,
            hits_outcome(json_hit_fields(trim(response.spec_body()))),
        ),
{
    match require_success(response) {
        Ok(()) => {},
        Err(e) => return Err(e),
    }
    parse_hits(response.body())
}

/// Sync HTTP transport used by [`HttpSearchAdapter`]; applications implement
/// it over the HTTP client of their choice.
pub trait SearchHttpPoster {
    /// The last request this poster was handed, as plain values.
    spec fn sent(&self) -> Option<RequestView>;

    /// The reply it gave to that request.
    spec fn replied(&self) -> Option<Result<SearchHttpResponse, SearchError>>;

    /// Sends `method` to `url` with `headers` and an optional JSON `body`.
    ///
    /// What comes back is the transport's: implementations promise only to
    /// record the request they were handed and the reply they gave.
    fn request(
        &mut self,
        method: SearchHttpMethod,
        url: &str,
        headers: &[(&str, &str)],
        body: Option<&[u8]>,
    ) -> (r: Result<SearchHttpResponse, SearchError>)
        ensures
            final(self).sent() == Some(sent_view(method, url@, headers@, body)),
            final(self).replied() == Some(r),
    ;
}

/// Request captured by [`MockSearchHttpPoster`].
#[derive(Debug, Clone, PartialEq, Eq)]
pub struct MockSearchRequest {
    /// HTTP method.
    pub method: SearchHttpMethod,
    /// Request URL.
    pub url: String,
    /// Header pairs as owned strings.
    pub headers: Vec<(String, String)>,
    /// Raw body bytes when present.
    pub body: Option<Vec<u8>>,
}

/// The method, URL, headers and body of a request, as plain values.
pub type RequestView = (SearchHttpMethod, Seq<char>, Seq<(Seq<char>, Seq<char>)>, Option<Seq<u8>>);

/// The plain values of a captured request.
pub open spec fn captured_view(q: MockSearchRequest) -> RequestView {
    (
        q.method,
        q.url@,
        q.headers.deep_view(),
        match q.body {
            Some(b) => Some(b@),
            None => None,
        },
    )
}

/// The character views of borrowed header pairs.
pub open spec fn header_views(h: Seq<(&str, &str)>) -> Seq<(Seq<char>, Seq<char>)> {
    h.map_values(|p: (&str, &str)| (p.0@, p.1@))
}

/// The plain values of a request as a poster receives it.
pub open spec fn sent_view(method: SearchHttpMethod, url: Seq<char>, headers: Seq<(&str, &str)>, body: Option<&[u8]>) -> RequestView {
    (
        method,
        url,
        header_views(headers),
        match body {
            Some(b) => Some(b@),
            None => None,
        },
    )
}

/// Whether two replies are the same response, or the same error.
pub open spec fn same_reply(a: Result<SearchHttpResponse, SearchError>, b: Result<SearchHttpResponse, SearchError>) -> bool {
    match (a, b) {
        (Ok(x), Ok(y)) => x.spec_status() == y.spec_status() && x.spec_body() == y.spec_body(),
        (Err(x), Err(y)) => crate::search::document::same_error(x, y),
        _ => false,
    }
}

/// Scripted poster for tests: answers every request with the same reply
/// and remembers the last request.
pub struct MockSearchHttpPoster {
    response: Result<SearchHttpResponse, SearchError>,
    last: Option<MockSearchRequest>,
    reply: Ghost<Option<Result<SearchHttpResponse, SearchError>>>,
}

impl MockSearchHttpPoster {
    /// The reply this poster gives.
    pub closed spec fn spec_response(&self) -> Result<SearchHttpResponse, SearchError> {
        self.response
    }

    /// The last request it received.
    pub closed spec fn spec_last(&self) -> Option<MockSearchRequest> {
        self.last
    }

    /// Always answers with `response`.
    pub fn new(response: SearchHttpResponse) -> (r: Self)
        ensures
            r.spec_response() == Ok::<SearchHttpResponse, SearchError>(response),
            r.spec_last() is None,
    {
        MockSearchHttpPoster { response: Ok(response), last: None, reply: Ghost(None) }
    }

    /// Always answers HTTP 200 with an empty JSON object.
    pub fn ok_empty() -> (r: Self)
        ensures
            r.spec_response() matches Ok(x) && x.spec_status() == 200 && x.spec_body() == "{}"@,
            r.spec_last() is None,
    {
        Self::new(SearchHttpResponse::new(200, "{}"))
    }

    /// Always fails the HTTP call with `error`.
    pub fn failing(error: SearchError) -> (r: Self)
        ensures
            r.spec_response() == Err::<SearchHttpResponse, SearchError>(error),
            r.spec_last() is None,
    {
        MockSearchHttpPoster { response: Err(error), last: None, reply: Ghost(None) }
    }

    /// Last request received, when any.
    pub fn last_request(&self) -> (r: Option<MockSearchRequest>)
        ensures
            match (r, self.spec_last()) {
                (Some(a), Some(b)) => captured_view(a) == captured_view(b),
                (None, None) => true,
                _ => false,
            },
    {
        match &self.last {
            Some(q) => {
                let mut headers: Vec<(String, String)> = Vec::new();
                let mut i: usize = 0;
                while i < q.headers.len()
                    invariant
                        0 <= i <= q.headers@.len(),
                        headers@.len() == i,
                        forall|j: int| 0 <= j < i ==> (#[trigger] headers@[j]).deep_view() == q.headers@[j].deep_view(),
                    decreases q.headers@.len() - i,
                {
                    headers.push((q.headers[i].0.clone(), q.headers[i].1.clone()));
                    i = i + 1;
                }
                assert(headers.deep_view() =~= q.headers.deep_view());
                let body = match &q.body {
                    Some(b) => Some(vstd::slice::slice_to_vec(b.as_slice())),
                    None => None,
                };
                Some(MockSearchRequest { method: q.method, url: q.url.clone(), headers, body })
            },
            None => None,
        }
    }
}

impl SearchHttpPoster for MockSearchHttpPoster {
    closed spec fn sent(&self) -> Option<RequestView> {
        match self.last {
            Some(q) => Some(captured_view(q)),
            None => None,
        }
    }

    closed spec fn replied(&self) -> Option<Result<SearchHttpResponse, SearchError>> {
        self.reply@
    }

    fn request(
        &mut self,
        method: SearchHttpMethod,
        url: &str,
        headers: &[(&str, &str)],
        body: Option<&[u8]>,
    ) -> (r: Result<SearchHttpResponse, SearchError>)
        ensures
            final(self).spec_response() == old(self).spec_response(),
            final(self).spec_last() matches Some(q) && captured_view(q) == sent_view(method, url@, headers@, body),
            same_reply(r, old(self).spec_response()),
    {
        let mut owned: Vec<(String, String)> = Vec::new();
        let mut i: usize = 0;
        while i < headers.len()
            invariant
                0 <= i <= headers@.len(),
                owned@.len() == i,
                forall|j: int| 0 <= j < i ==> (#[trigger] owned@[j]).deep_view() == (headers@[j].0@, headers@[j].1@),
            decreases headers@.len() - i,
        {
            let (name, value) = headers[i];
            owned.push((name.to_owned(), value.to_owned()));
            i = i + 1;
        }
        assert(owned.deep_view() =~= header_views(headers@));
        let captured_body = match body {
            Some(b) => Some(vstd::slice::slice_to_vec(b)),
            None => None,
        };
        self.last = Some(MockSearchRequest { method, url: url.to_owned(), headers: owned, body: captured_body });
        let r = match &self.response {
            Ok(x) => Ok(x.duplicate()),
            Err(e) => Err(e.duplicate()),
        };
        self.reply = Ghost(Some(r));
        r
    }
}

/// The headers of every request: JSON content type, plus a Bearer
/// authorization when an API key is configured.
pub open spec fn request_headers(api_key: Option<Seq<char>>) -> Seq<(Seq<char>, Seq<char>)> {
    let base = seq![("Content-Type"@, "application/json"@)];
    match api_key {
        Some(k) => base.push(("Authorization"@, "Bearer "@ + k)),
        None => base,
    }
}

/// Borrowed views of owned header pairs.
fn header_refs<'a>(owned: &'a Vec<(String, String)>) -> (r: Vec<(&'a str, &'a str)>)
    ensures
        header_views(r@) == owned.deep_view(),
{
    let mut out: Vec<(&'a str, &'a str)> = Vec::new();
    let mut i: usize = 0;
    while i < owned.len()
        invariant
            0 <= i <= owned@.len(),
            out@.len() == i,
            forall|j: int| 0 <= j < i ==> ((#[trigger] out@[j]).0@, out@[j].1@) == owned@[j].deep_view(),
        decreases owned@.len() - i,
    {
        out.push((owned[i].0.as_str(), owned[i].1.as_str()));
        i = i + 1;
    }
    assert(header_views(out@) =~= owned.deep_view());
    out
}

/// The request that upserts `document`: a PUT of its JSON to its document URL.
pub open spec fn upsert_request(config: HttpSearchConfig, document: SearchDocument) -> RequestView {
    (
        SearchHttpMethod::Put,
        config.spec_base_url() + "/documents/"@ + document.spec_id(),
        request_headers(config.spec_api_key()),
        Some(document_json_bytes(document.spec_id(), document.spec_fields())),
    )
}

/// The request that deletes document `id`: a DELETE of its document URL.
pub open spec fn delete_request(config: HttpSearchConfig, id: Seq<char>) -> RequestView {
    (
        SearchHttpMethod::Delete,
        config.spec_base_url() + "/documents/"@ + id,
        request_headers(config.spec_api_key()),
        None,
    )
}

/// The request that runs `query`: a POST of its JSON to the search URL.
pub open spec fn search_request(config: HttpSearchConfig, query: SearchQuery) -> RequestView {
    (
        SearchHttpMethod::Post,
        config.spec_base_url() + "/search"@,
        request_headers(config.spec_api_key()),
        Some(query_json_bytes(query.spec_text(), query.spec_offset(), query.spec_limit())),
    )
}

/// The request that clears the index: a DELETE of the documents URL.
pub open spec fn clear_request(config: HttpSearchConfig) -> RequestView {
    (
        SearchHttpMethod::Delete,
        config.spec_base_url() + "/documents"@,
        request_headers(config.spec_api_key()),
        None,
    )
}

/// Whether `r` is what an upsert or a clear answers to `reply`: the
/// transport's error, `Ok` for a 2xx response, else an index error naming
/// the status and an excerpt of the body.
pub open spec fn success_reply(r: Result<(), SearchError>, reply: Result<SearchHttpResponse, SearchError>) -> bool {
    match reply {
        Err(e) => r == Err::<(), SearchError>(e),
        Ok(x) => if 200 <= x.spec_status() < 300 {
            r is Ok
        } else {
            r matches Err(e) && is_index_error(e, failure_message(x.spec_status(), x.spec_body()))
        },
    }
}

/// Whether `r` is what a delete answers to `reply`: as for an upsert, with
/// the body's `deleted` flag (`true` when it does not say) on success.
pub open spec fn deleted_reply(r: Result<bool, SearchError>, reply: Result<SearchHttpResponse, SearchError>) -> bool {
    match reply {
        Err(e) => r == Err::<bool, SearchError>(e),
        Ok(x) => if 200 <= x.spec_status() < 300 {
            r == Ok::<bool, SearchError>(
                match parse_deleted_spec(x.spec_body()) {
                    Some(b) => b,
                    None => true,
                },
            )
        } else {
            r matches Err(e) && is_index_error(e, failure_message(x.spec_status(), x.spec_body()))
        },
    }
}

/// Whether `r` is what a query answers to `reply`: as for an upsert, with
/// the hits of the body (none for a blank one) on success.
pub open spec fn hits_reply(r: Result<Vec<SearchHit>, SearchError>, reply: Result<SearchHttpResponse, SearchError>) -> bool {
    match reply {
        Err(e) => r == Err::<Vec<SearchHit>, SearchError>(e),
        Ok(x) => if !(200 <= x.spec_status() < 300) {
            r matches Err(e) && is_index_error(e, failure_message(x.spec_status(), x.spec_body()))
        } else if trim(x.spec_body()).len() == 0 {
            r matches Ok(v) && v@.len() == 0
        } else {
            matches_outcome(r, hits_outcome(json_hit_fields(trim(x.spec_body()))))
        },
    }
}

/// HTTP search adapter implementing [`DocumentIndex`] over a [`SearchHttpPoster`].
pub struct HttpSearchAdapter<P> {
    config: HttpSearchConfig,
    poster: P,
}

impl<P> HttpSearchAdapter<P> {
    /// Search API config.
    pub closed spec fn spec_config(&self) -> HttpSearchConfig {
        self.config
    }

    /// The HTTP poster.
    pub closed spec fn spec_poster(&self) -> P {
        self.poster
    }

    /// Creates an adapter with `config` and sync HTTP `poster`.
    pub fn new(config: HttpSearchConfig, poster: P) -> (r: Self)
        ensures
            r.spec_config() == config,
            r.spec_poster() == poster,
    {
        HttpSearchAdapter { config, poster }
    }

    /// Search API config.
    pub fn config(&self) -> (r: &HttpSearchConfig)
        ensures
            *r == self.spec_config(),
    {
        &self.config
    }

    /// Underlying HTTP poster.
    pub fn poster(&self) -> (r: &P)
        ensures
            *r == self.spec_poster(),
    {
        &self.poster
    }

    /// Headers for every request.
    fn headers(&self) -> (r: Vec<(String, String)>)
        ensures
            r.deep_view() == request_headers(self.config.spec_api_key()),
    {
        let mut out: Vec<(String, String)> = Vec::new();
        out.push(("Content-Type".to_owned(), "application/json".to_owned()));
        match self.config.api_key_value() {
            Some(key) => {
                let mut value = chars_of("Bearer ");
                let k = chars_of(key);
                push_all(&mut value, k.as_slice());
                out.push(("Authorization".to_owned(), string_of(value.as_slice())));
            },
            None => {},
        }
        assert(out.deep_view() =~= request_headers(self.config.spec_api_key()));
        out
    }
}

impl<P: SearchHttpPoster> DocumentIndex for HttpSearchAdapter<P> {
    fn upsert(&mut self, document: SearchDocument) -> (r: Result<(), SearchError>)
        ensures
            final(self).spec_config() == old(self).spec_config(),
            document.spec_id().len() == 0 ==> *final(self) == *old(self),
            document.spec_id().len() > 0 ==> {
                &&& final(self).spec_poster().sent() == Some(upsert_request(old(self).spec_config(), document))
                &&& final(self).spec_poster().replied() matches Some(reply) && success_reply(r, reply)
            },
    {
        match validate_id(document.id()) {
            Ok(()) => {},
            Err(e) => return Err(e),
        }
        let payload = document_json(&document);
        let url = self.config.document_url(document.id());
        let owned = self.headers();
        let headers = header_refs(&owned);
        let response = match self.poster.request(
            SearchHttpMethod::Put,
            url.as_str(),
            headers.as_slice(),
            Some(payload.as_slice()),
        ) {
            Ok(x) => x,
            Err(e) => return Err(e),
        };
        require_success(&response)
    }

    fn delete(&mut self, id: &str) -> (r: Result<bool, SearchError>)
        ensures
            final(self).spec_config() == old(self).spec_config(),
            id@.len() == 0 ==> *final(self) == *old(self),
            id@.len() > 0 ==> {
                &&& final(self).spec_poster().sent() == Some(delete_request(old(self).spec_config(), id@))
                &&& final(self).spec_poster().replied() matches Some(reply) && deleted_reply(r, reply)
            },
    {
        match validate_id(id) {
            Ok(()) => {},
            Err(e) => return Err(e),
        }
        let url = self.config.document_url(id);
        let owned = self.headers();
        let headers = header_refs(&owned);
        let response = match self.poster.request(SearchHttpMethod::Delete, url.as_str(), headers.as_slice(), None) {
            Ok(x) => x,
            Err(e) => return Err(e),
        };
        delete_outcome(&response)
    }

    fn query(&mut self, query: &SearchQuery) -> (r: Result<Vec<SearchHit>, SearchError>)
        ensures
            final(self).spec_config() == old(self).spec_config(),
            final(self).spec_poster().sent() == Some(search_request(old(self).spec_config(), *query)),
            final(self).spec_poster().replied() matches Some(reply) && hits_reply(r, reply),
    {
        let payload = query_json(query);
        let url = self.config.search_url();
        let owned = self.headers();
        let headers = header_refs(&owned);
        let response = match self.poster.request(
            SearchHttpMethod::Post,
            url.as_str(),
            headers.as_slice(),
            Some(payload.as_slice()),
        ) {
            Ok(x) => x,
            Err(e) => return Err(e),
        };
        query_outcome(&response)
    }

    fn clear(&mut self) -> (r: Result<(), SearchError>)
        ensures
            final(self).spec_config() == old(self).spec_config(),
            final(self).spec_poster().sent() == Some(clear_request(old(self).spec_config())),
            final(self).spec_poster().replied() matches Some(reply) && success_reply(r, reply),
    {
        let url = self.config.documents_url();
        let owned = self.headers();
        let headers = header_refs(&owned);
        let response = match self.poster.request(SearchHttpMethod::Delete, url.as_str(), headers.as_slice(), None) {
            Ok(x) => x,
            Err(e) => return Err(e),
        };
        require_success(&response)
    }
}

} // verus!
