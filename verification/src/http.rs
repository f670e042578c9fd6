//! Requests and responses of tests that run over HTTP.

use vstd::prelude::*;
use crate::text::{str_eq, string_from_utf8};

verus! {

/// The method of a request.
#[derive(Debug, Clone, Copy)]
pub enum Method {
    Get,
    Post,
    Put,
    Patch,
    Delete,
}

/// A request to the runtime under test.
#[derive(Debug, Clone)]
pub struct Request<'a, B> {
    pub method: Method,
    pub path: &'a str,
    pub headers: &'a [(&'a str, &'a str)],
    pub body: Option<B>,
}

impl<'a, 'b> Request<'a, &'b [u8]> {
    /// A request with no headers and no body.
    pub fn new(method: Method, uri: &'a str) -> (r: Self)
        ensures
            r.method == method,
            r.path == uri,
            r.headers@.len() == 0,
            r.body.is_none(),
    {
        Self { method, path: uri, headers: &[], body: None }
    }
}

impl<'a, B> Request<'a, B> {
    /// A request with headers and a body.
    pub fn full(
        method: Method,
        path: &'a str,
        headers: &'a [(&'a str, &'a str)],
        body: Option<B>,
    ) -> (r: Self)
        ensures
            r.method == method,
            r.path == path,
            r.headers == headers,
            r.body == body,
    {
        Self { method, path, headers, body }
    }
}

/// Headers as pairs of a name and a value.
pub type Headers = Seq<(Seq<char>, Seq<char>)>;

/// The views of the pairs of `pairs`, in order.
pub open spec fn header_views(pairs: Seq<(String, String)>) -> Headers {
    Seq::new(pairs.len(), |i: int| (pairs[i].0@, pairs[i].1@))
}

/// The first index at or after `i` whose header has the name `name`, or the
/// length of `headers` where none has.
pub open spec fn position(headers: Headers, name: Seq<char>, i: int) -> int
    decreases headers.len() - i,
{
    if 0 <= i < headers.len() && headers[i].0 != name {
        position(headers, name, i + 1)
    } else {
        i
    }
}

/// `headers` with the value `value` for the name `name`: in the place of the
/// header of that name, or at the end where there is none.
pub open spec fn with_header(headers: Headers, name: Seq<char>, value: Seq<char>) -> Headers {
    let p = position(headers, name, 0);
    if p < headers.len() {
        headers.update(p, (name, value))
    } else {
        headers.push((name, value))
    }
}

/// The headers that the pairs `pairs` give when each is set in turn: of two
/// pairs with one name the later gives the value.
pub open spec fn headers_of(pairs: Headers) -> Headers
    decreases pairs.len(),
{
    if pairs.len() == 0 {
        Seq::empty()
    } else {
        with_header(headers_of(pairs.drop_last()), pairs.last().0, pairs.last().1)
    }
}

/// Whether no two headers have one name.
pub open spec fn distinct_names(headers: Headers) -> bool {
    forall|i: int, j: int| 0 <= i < j < headers.len() ==> headers[i].0 != headers[j].0
}

pub proof fn lemma_position(headers: Headers, name: Seq<char>, i: int)
    requires
        0 <= i <= headers.len(),
    ensures
        i <= position(headers, name, i) <= headers.len(),
        forall|k: int| i <= k < position(headers, name, i) ==> (#[trigger] headers[k]).0 != name,
        position(headers, name, i) < headers.len() ==> headers[position(headers, name, i)].0 == name,
    decreases headers.len() - i,
{
    if i < headers.len() && headers[i].0 != name {
        lemma_position(headers, name, i + 1);
    }
}

/// Setting a header keeps the names distinct.
pub proof fn lemma_with_header_distinct(headers: Headers, name: Seq<char>, value: Seq<char>)
    requires
        distinct_names(headers),
    ensures
        distinct_names(with_header(headers, name, value)),
{
    lemma_position(headers, name, 0);
    let p = position(headers, name, 0);
    let r = with_header(headers, name, value);
    assert forall|i: int, j: int| 0 <= i < j < r.len() implies r[i].0 != r[j].0 by {
        if p < headers.len() {
            assert(r[i].0 == headers[i].0);
            assert(r[j].0 == headers[j].0);
        } else {
            if j < headers.len() {
                assert(r[i].0 == headers[i].0);
                assert(r[j].0 == headers[j].0);
            } else {
                assert(r[i] == headers[i]);
            }
        }
    }
}

/// The headers that a list of pairs gives have distinct names.
pub proof fn lemma_headers_of_distinct(pairs: Headers)
    ensures
        distinct_names(headers_of(pairs)),
    decreases pairs.len(),
{
    if pairs.len() > 0 {
        lemma_headers_of_distinct(pairs.drop_last());
        lemma_with_header_distinct(headers_of(pairs.drop_last()), pairs.last().0, pairs.last().1);
    }
}

/// The index of the header named `name` in `headers`, or their number.
pub fn find_header(headers: &Vec<(String, String)>, name: &str) -> (p: usize)
    ensures
        p == position(header_views(headers@), name@, 0),
        p <= headers.len(),
{
    let mut i: usize = 0;
    while i < headers.len()
        invariant
            i <= headers.len(),
            position(header_views(headers@), name@, 0) == position(
                header_views(headers@),
                name@,
                i as int,
            ),
        decreases headers.len() - i,
    {
        if str_eq(headers[i].0.as_str(), name) {
            return i;
        }
        i += 1;
    }
    i
}

/// Sets the value `value` for the name `name` in `headers`.
pub fn set_header(headers: &mut Vec<(String, String)>, name: String, value: String)
    ensures
        header_views(final(headers)@) == with_header(header_views(old(headers)@), name@, value@),
{
    let p = find_header(headers, name.as_str());
    if p < headers.len() {
        headers.set(p, (name, value));
    } else {
        headers.push((name, value));
    }
    assert(header_views(headers@) =~= with_header(header_views(old(headers)@), name@, value@));
}

/// The views of the chunks of `chunks`, in order.
pub open spec fn chunk_views(chunks: Seq<Vec<u8>>) -> Seq<Seq<u8>> {
    Seq::new(chunks.len(), |i: int| chunks[i]@)
}

/// What is turned into the chunks of a body.
pub trait IntoChunks: Sized {
    /// The chunks that `self` is turned into.
    spec fn chunks(self) -> Seq<Seq<u8>>;

    fn into_chunks(self) -> (r: Vec<Vec<u8>>)
        ensures
            chunk_views(r@) == self.chunks(),
    ;
}

impl IntoChunks for Vec<Vec<u8>> {
    open spec fn chunks(self) -> Seq<Seq<u8>> {
        chunk_views(self@)
    }

    fn into_chunks(self) -> (r: Vec<Vec<u8>>) {
        self
    }
}

impl IntoChunks for Vec<u8> {
    open spec fn chunks(self) -> Seq<Seq<u8>> {
        seq![self@]
    }

    fn into_chunks(self) -> (r: Vec<Vec<u8>>) {
        let mut r: Vec<Vec<u8>> = Vec::new();
        r.push(self);
        assert(chunk_views(r@) =~= seq![self@]);
        r
    }
}

impl IntoChunks for String {
    open spec fn chunks(self) -> Seq<Seq<u8>> {
        seq![vstd::utf8::encode_utf8(self@)]
    }

    fn into_chunks(self) -> (r: Vec<Vec<u8>>) {
        let mut r: Vec<Vec<u8>> = Vec::new();
        let bytes = self.as_str().as_bytes_vec();
        r.push(bytes);
        assert(chunk_views(r@) =~= seq![vstd::utf8::encode_utf8(self@)]);
        r
    }
}

impl IntoChunks for &str {
    open spec fn chunks(self) -> Seq<Seq<u8>> {
        seq![vstd::utf8::encode_utf8(self@)]
    }

    fn into_chunks(self) -> (r: Vec<Vec<u8>>) {
        let mut r: Vec<Vec<u8>> = Vec::new();
        let bytes = self.as_bytes_vec();
        r.push(bytes);
        assert(chunk_views(r@) =~= seq![vstd::utf8::encode_utf8(self@)]);
        r
    }
}

/// A response of the runtime under test.
pub struct Response {
    status: u16,
    headers: Vec<(String, String)>,
    chunks: Vec<Vec<u8>>,
}

/// A response as its status, its headers and the chunks of its body.
pub struct ResponseView {
    pub status: u16,
    pub headers: Headers,
    pub chunks: Seq<Seq<u8>>,
}

impl ResponseView {
    /// The body: the bytes of the chunks, one chunk after the other.
    pub open spec fn body(self) -> Seq<u8> {
        self.chunks.flatten()
    }
}

impl View for Response {
    type V = ResponseView;

    closed spec fn view(&self) -> ResponseView {
        ResponseView {
            status: self.status,
            headers: header_views(self.headers@),
            chunks: chunk_views(self.chunks@),
        }
    }
}

impl Response {
    #[verifier::type_invariant]
    closed spec fn names_are_distinct(self) -> bool {
        distinct_names(header_views(self.headers@))
    }

    /// A response with no headers and no body.
    pub fn new(status: u16) -> (r: Self)
        ensures
            r@.status == status,
            r@.headers.len() == 0,
            r@.chunks.len() == 0,
    {
        Self { status, headers: Vec::new(), chunks: Vec::new() }
    }

    /// A response with a body and no headers.
    pub fn new_with_body<C: IntoChunks>(status: u16, chunks: C) -> (r: Self)
        ensures
            r@.status == status,
            r@.headers.len() == 0,
            r@.chunks == chunks.chunks(),
    {
        Self { status, headers: Vec::new(), chunks: chunks.into_chunks() }
    }

    /// A response with headers and a body. Of two headers with one name the
    /// later gives the value.
    pub fn full<C: IntoChunks>(status: u16, headers: Vec<(String, String)>, chunks: C) -> (r: Self)
        ensures
            r@.status == status,
            r@.headers == headers_of(header_views(headers@)),
            r@.chunks == chunks.chunks(),
    {
        let ghost pairs = header_views(headers@);
        let mut set: Vec<(String, String)> = Vec::new();
        let mut i: usize = 0;
        assert(pairs.take(0) =~= Seq::empty());
        while i < headers.len()
            invariant
                i <= headers.len(),
                pairs == header_views(headers@),
                header_views(set@) == headers_of(pairs.take(i as int)),
            decreases headers.len() - i,
        {
            assert(pairs.take(i + 1).drop_last() =~= pairs.take(i as int));
            set_header(&mut set, headers[i].0.clone(), headers[i].1.clone());
            i += 1;
        }
        proof {
            assert(pairs.take(i as int) =~= pairs);
            lemma_headers_of_distinct(pairs);
        }
        Self { status, headers: set, chunks: chunks.into_chunks() }
    }

    /// The status code.
    pub fn status(&self) -> (s: u16)
        ensures
            s == self@.status,
    {
        self.status
    }

    /// The headers, no two of them with one name.
    pub fn headers(&self) -> (h: &Vec<(String, String)>)
        ensures
            header_views(h@) == self@.headers,
            distinct_names(self@.headers),
    {
        proof {
            use_type_invariant(self);
        }
        &self.headers
    }

    /// The body.
    pub fn body(&self) -> (b: Vec<u8>)
        ensures
            b@ == self@.body(),
    {
        let mut b: Vec<u8> = Vec::new();
        let mut i: usize = 0;
        let ghost views = chunk_views(self.chunks@);
        assert(views.take(0) =~= Seq::empty());
        while i < self.chunks.len()
            invariant
                i <= self.chunks.len(),
                views == chunk_views(self.chunks@),
                b@ == views.take(i as int).flatten(),
            decreases self.chunks.len() - i,
        {
            proof {
                assert(views.take(i + 1) =~= views.take(i as int).push(self.chunks@[i as int]@));
                views.take(i as int).lemma_flatten_push(self.chunks@[i as int]@);
            }
            b.extend_from_slice(self.chunks[i].as_slice());
            i += 1;
        }
        assert(views.take(i as int) =~= views);
        b
    }

    /// The body as the chunks in which it came. A response that was not
    /// streamed has one chunk, the body.
    pub fn chunks(&self) -> (c: &[Vec<u8>])
        ensures
            chunk_views(c@) == self@.chunks,
    {
        self.chunks.as_slice()
    }

    /// The body as text: the text that the body encodes in UTF-8, or an
    /// error where the body is no valid UTF-8.
    pub fn text(&self) -> (r: Result<String, std::string::FromUtf8Error>)
        ensures
            r is Ok <==> vstd::utf8::valid_utf8(self@.body()),
            r matches Ok(s) ==> s@ == vstd::utf8::decode_utf8(self@.body()),
    {
        string_from_utf8(self.body())
    }
}

/// How often a request is sent again after the connection failed.
pub const MAX_RETRIES: u32 = 5;

/// The time to wait before a request is sent again, in milliseconds.
pub const RETRY_DELAY_MILLIS: u64 = 10;

/// What to do after an attempt to send a request.
#[derive(Debug, Clone, Copy, PartialEq, Eq, Structural)]
pub enum Attempt {
    /// Wait `RETRY_DELAY_MILLIS` and send the request again; `retries` is
    /// the number of retries including this one.
    Retry { retries: u32 },
    /// Take the outcome of the attempt as the outcome of the request.
    Finish,
}

/// What to do after an attempt to send a request. `failed` says whether the
/// connection failed, `retries` how often the request was sent again
/// already. A response, whatever its status, ends the request; so does the
/// failure after the last retry.
pub fn after_attempt(failed: bool, retries: u32) -> (a: Attempt)
    ensures
        a == (if failed && retries < MAX_RETRIES {
            Attempt::Retry { retries: (retries + 1) as u32 }
        } else {
            Attempt::Finish
        }),
{
    if failed && retries < MAX_RETRIES {
        Attempt::Retry { retries: retries + 1 }
    } else {
        Attempt::Finish
    }
}

/// The address of the runtime that listens on the port `port` of the host
/// `host`.
pub open spec fn base_address(host: Seq<char>, port: u16) -> Seq<char> {
    "http://"@ + host + seq![':'] + crate::text::decimal(port as nat)
}

/// The address against which the path of a request is resolved.
pub fn base_url(host: &str, port: u16) -> (r: String)
    ensures
        r@ == base_address(host@, port),
{
    let mut r = String::from_str("http://");
    r.append(host);
    crate::text::push_char(&mut r, ':');
    crate::text::push_decimal(&mut r, port as u64);
    r
}

/// The value of a header of a response as text: the value itself, or
/// `<non-utf8>` where it is no text.
pub fn header_value(value: Option<String>) -> (r: String)
    ensures
        r@ == (match value {
            Some(v) => v@,
            None => "<non-utf8>"@,
        }),
{
    match value {
        Some(v) => v,
        None => String::from_str("<non-utf8>"),
    }
}

impl Method {
    /// The name of the method as a request line writes it.
    pub fn name(&self) -> (n: &'static str)
        ensures
            n@ == (match *self {
                Method::Get => "GET"@,
                Method::Post => "POST"@,
                Method::Put => "PUT"@,
                Method::Patch => "PATCH"@,
                Method::Delete => "DELETE"@,
            }),
    {
        match self {
            Method::Get => "GET",
            Method::Post => "POST",
            Method::Put => "PUT",
            Method::Patch => "PATCH",
            Method::Delete => "DELETE",
        }
    }
}

} // verus!
