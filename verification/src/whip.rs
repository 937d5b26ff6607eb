//! WHIP signaling: what is sent to the server, and what its replies mean. Sending
//! is left to an HTTP client.
use vstd::prelude::*;

use crate::icerestart::ICE_FRAGMENT_CONTENT_TYPE;
use crate::text;

verus! {

/// What a successful offer brought.
#[derive(Debug)]
pub struct WhipResult {
    pub answer_sdp: String,
    pub session_url: String,
    /// ETag identifying the ICE session; required to PATCH it.
    pub etag: String,
    /// Single-use credential for reattaching a later redial to this
    /// conversation. Empty when the server cannot resume.
    pub resume_token: String,
    /// "new", "resumed", or "expired". Anything but "resumed" on a redial
    /// means the agent has no memory of the earlier conversation.
    pub resume_status: String,
}

/// What a [`WhipResult`] says.
#[verifier::ext_equal]
pub struct WhipResultView {
    pub answer_sdp: Seq<char>,
    pub session_url: Seq<char>,
    pub etag: Seq<char>,
    pub resume_token: Seq<char>,
    pub resume_status: Seq<char>,
}

impl View for WhipResult {
    type V = WhipResultView;

    open spec fn view(&self) -> WhipResultView {
        WhipResultView {
            answer_sdp: self.answer_sdp@,
            session_url: self.session_url@,
            etag: self.etag@,
            resume_token: self.resume_token@,
            resume_status: self.resume_status@,
        }
    }
}

/// The server's reply to an ICE restart.
#[derive(Debug)]
pub struct WhipRestartResult {
    /// The server's fragment, to fold into the stored remote description.
    pub fragment: String,
    /// The rotated tag identifying the new ICE session.
    pub etag: String,
}

/// What a [`WhipRestartResult`] says.
#[verifier::ext_equal]
pub struct WhipRestartResultView {
    pub fragment: Seq<char>,
    pub etag: Seq<char>,
}

impl View for WhipRestartResult {
    type V = WhipRestartResultView;

    open spec fn view(&self) -> WhipRestartResultView {
        WhipRestartResultView { fragment: self.fragment@, etag: self.etag@ }
    }
}

/// What can go wrong in signaling.
#[derive(Debug)]
pub enum WhipError {
    /// The HTTP request failed, with the HTTP client's words.
    Request(String),
    UnexpectedStatus { status: u16, body: String },
    TokenFetch(String),
    RestartRejected {
        status: u16,
        body: String,
        /// The tag the server reported as current, present on a 412.
        current_etag: String,
    },
}

/// What a [`WhipError`] says.
#[verifier::ext_equal]
pub enum WhipErrorView {
    Request(Seq<char>),
    UnexpectedStatus { status: u16, body: Seq<char> },
    TokenFetch(Seq<char>),
    RestartRejected { status: u16, body: Seq<char>, current_etag: Seq<char> },
}

impl View for WhipError {
    type V = WhipErrorView;

    open spec fn view(&self) -> WhipErrorView {
        match self {
            WhipError::Request(e) => WhipErrorView::Request(e@),
            WhipError::UnexpectedStatus { status, body } => WhipErrorView::UnexpectedStatus {
                status: *status,
                body: body@,
            },
            WhipError::TokenFetch(e) => WhipErrorView::TokenFetch(e@),
            WhipError::RestartRejected { status, body, current_etag } =>
                WhipErrorView::RestartRejected {
                status: *status,
                body: body@,
                current_etag: current_etag@,
            },
        }
    }
}

impl WhipErrorView {
    /// Whether another ICE restart against the same session could still
    /// succeed.
    pub open spec fn restart_retryable(self) -> bool {
        match self {
            WhipErrorView::RestartRejected { status, .. } => status != 404 && status != 409
                && status != 405,
            _ => true,
        }
    }

    /// The error in words.
    pub open spec fn message(self) -> Seq<char> {
        match self {
            WhipErrorView::Request(e) => "HTTP request failed: "@ + e,
            WhipErrorView::UnexpectedStatus { status, body } => "unexpected status "@
                + text::decimal(status as nat) + ": "@ + body,
            WhipErrorView::TokenFetch(e) => "token fetch failed: "@ + e,
            WhipErrorView::RestartRejected { status, body, .. } => "ICE restart failed ("@
                + text::decimal(status as nat) + "): "@ + body,
        }
    }
}

impl WhipError {
    /// Whether another ICE restart against the same session could still
    /// succeed. A 404 means the session was reaped, 409 that it has no peer to
    /// restart, and 405 that the server declines restarts entirely: only a
    /// redial recovers from those.
    pub fn restart_retryable(&self) -> (r: bool)
        ensures
            r == self@.restart_retryable(),
    {
        match self {
            WhipError::RestartRejected { status, .. } => *status != 404 && *status != 409 && *status
                != 405,
            _ => true,
        }
    }

    /// The error in words.
    pub fn message(&self) -> (r: String)
        ensures
            r@ == self@.message(),
    {
        match self {
            WhipError::Request(e) => text::concatenate("HTTP request failed: ", e.as_str()),
            WhipError::UnexpectedStatus { status, body } => {
                let mut out = "unexpected status ".to_owned();
                out.append(text::render_u64(*status as u64).as_str());
                out.append(": ");
                out.append(body.as_str());
                out
            },
            WhipError::TokenFetch(e) => text::concatenate("token fetch failed: ", e.as_str()),
            WhipError::RestartRejected { status, body, .. } => {
                let mut out = "ICE restart failed (".to_owned();
                out.append(text::render_u64(*status as u64).as_str());
                out.append("): ");
                out.append(body.as_str());
                out
            },
        }
    }
}

/// The method of a request.
#[derive(Debug, Clone, Copy, PartialEq, Eq, Structural)]
pub enum Method {
    Post,
    Patch,
    Delete,
}

/// A request to send.
#[derive(Debug)]
pub struct HttpRequest {
    pub method: Method,
    pub url: String,
    /// Parameters to add to the URL's query, by name, not yet encoded.
    pub query: Vec<(String, String)>,
    /// Headers by name.
    pub headers: Vec<(String, String)>,
    pub body: Option<String>,
}

/// What an [`HttpRequest`] says.
#[verifier::ext_equal]
pub struct HttpRequestView {
    pub method: Method,
    pub url: Seq<char>,
    pub query: Seq<(Seq<char>, Seq<char>)>,
    pub headers: Seq<(Seq<char>, Seq<char>)>,
    pub body: Option<Seq<char>>,
}

impl View for HttpRequest {
    type V = HttpRequestView;

    open spec fn view(&self) -> HttpRequestView {
        HttpRequestView {
            method: self.method,
            url: self.url@,
            query: self.query.deep_view(),
            headers: self.headers.deep_view(),
            body: self.body.deep_view(),
        }
    }
}

impl DeepView for HttpRequest {
    type V = HttpRequestView;

    open spec fn deep_view(&self) -> HttpRequestView {
        self@
    }
}

/// A reply that came in.
#[derive(Debug)]
pub struct HttpResponse {
    pub status: u16,
    /// Headers by name in lower case, with their raw values; of several with
    /// one name, the first counts.
    pub headers: Vec<(String, Vec<u8>)>,
    /// The body as text, or the HTTP client's words on why it could not be read.
    pub body: Result<String, String>,
}

/// What an [`HttpResponse`] says.
pub struct HttpResponseView {
    pub status: u16,
    pub headers: Seq<(Seq<char>, Seq<u8>)>,
    pub body: Result<Seq<char>, Seq<char>>,
}

impl View for HttpResponse {
    type V = HttpResponseView;

    open spec fn view(&self) -> HttpResponseView {
        HttpResponseView {
            status: self.status,
            headers: self.headers.deep_view(),
            body: text::result_view(self.body),
        }
    }
}

/// `value` under `name` if there is one, nothing otherwise.
pub open spec fn pair_if(name: Seq<char>, value: Option<Seq<char>>) -> Seq<(Seq<char>, Seq<char>)> {
    match value {
        Some(v) => seq![(name, v)],
        None => Seq::empty(),
    }
}

/// `value` unless it is empty.
pub open spec fn unless_empty(value: Option<Seq<char>>) -> Option<Seq<char>> {
    match value {
        Some(v) => if v.len() > 0 {
            Some(v)
        } else {
            None
        },
        None => None,
    }
}

/// The header that authenticates with `token`, if there is one.
pub open spec fn bearer(token: Option<Seq<char>>) -> Seq<(Seq<char>, Seq<char>)> {
    pair_if(
        "Authorization"@,
        match token {
            Some(t) => Some("Bearer "@ + t),
            None => None,
        },
    )
}

/// The request that POSTs an SDP offer.
pub open spec fn offer_request(
    endpoint: Seq<char>,
    offer_sdp: Seq<char>,
    token: Option<Seq<char>>,
    resume_token: Option<Seq<char>>,
    resource_id: Option<Seq<char>>,
) -> HttpRequestView {
    HttpRequestView {
        method: Method::Post,
        url: endpoint,
        query: pair_if("resume"@, unless_empty(resume_token)),
        headers: seq![("Content-Type"@, "application/sdp"@)] + bearer(token) + pair_if(
            "X-StreamCore-Resource-Id"@,
            resource_id,
        ),
        body: Some(offer_sdp),
    }
}

/// The request that PATCHes an ICE restart onto a session.
pub open spec fn restart_request(
    session_url: Seq<char>,
    fragment: Seq<char>,
    etag: Option<Seq<char>>,
    token: Option<Seq<char>>,
) -> HttpRequestView {
    HttpRequestView {
        method: Method::Patch,
        url: session_url,
        query: Seq::empty(),
        headers: seq![("Content-Type"@, ICE_FRAGMENT_CONTENT_TYPE@)] + pair_if(
            "If-Match"@,
            unless_empty(etag),
        ) + bearer(token),
        body: Some(fragment),
    }
}

/// The body that tells the token endpoint who is on the call.
pub open spec fn token_request_body(resource_id: Seq<char>) -> Seq<char> {
    "{\"resource_id\":"@ + text::json_string(resource_id) + "}"@
}

/// The request that asks a token endpoint for a JWT.
pub open spec fn token_request(
    token_url: Seq<char>,
    api_key: Option<Seq<char>>,
    resource_id: Option<Seq<char>>,
) -> HttpRequestView {
    HttpRequestView {
        method: Method::Post,
        url: token_url,
        query: Seq::empty(),
        headers: bearer(api_key) + pair_if(
            "Content-Type"@,
            match resource_id {
                Some(_) => Some("application/json"@),
                None => None,
            },
        ),
        body: match resource_id {
            Some(id) => Some(token_request_body(id)),
            None => None,
        },
    }
}

/// The request that ends a session; none for the empty session URL.
pub open spec fn delete_request(
    session_url: Seq<char>,
    token: Option<Seq<char>>,
) -> Option<HttpRequestView> {
    if session_url.len() > 0 {
        Some(
            HttpRequestView {
                method: Method::Delete,
                url: session_url,
                query: Seq::empty(),
                headers: bearer(token),
                body: None,
            },
        )
    } else {
        None
    }
}

/// The raw value of the first header with this name.
pub open spec fn header_bytes(headers: Seq<(Seq<char>, Seq<u8>)>, name: Seq<char>) -> Option<
    Seq<u8>,
>
    decreases headers.len(),
{
    if headers.len() == 0 {
        None
    } else if headers[0].0 == name {
        Some(headers[0].1)
    } else {
        header_bytes(headers.drop_first(), name)
    }
}

/// Whether a header value is text: visible ASCII, blanks and tabs only.
pub open spec fn is_header_text(value: Seq<u8>) -> bool {
    forall|i: int| 0 <= i < value.len() ==> (32 <= #[trigger] value[i] < 127 || value[i] == 9)
}

/// The text of the first header with this name; empty if there is none or it is
/// not text.
pub open spec fn header_text(headers: Seq<(Seq<char>, Seq<u8>)>, name: Seq<char>) -> Seq<char> {
    match header_bytes(headers, name) {
        Some(value) => if is_header_text(value) {
            value.map_values(|b: u8| b as char)
        } else {
            Seq::empty()
        },
        None => Seq::empty(),
    }
}

/// The origin of the absolute URL `url` as `Url::parse` reads it: its scheme, its
/// host and its port, the last two if it has them, the port only if it is not
/// the scheme's default; none if `url` is not an absolute URL.
pub uninterp spec fn url_origin(url: Seq<char>) -> Option<
    (Seq<char>, Option<Seq<char>>, Option<u16>),
>;

/// The beginning of every URL with this scheme, host and port.
pub open spec fn origin_text(
    scheme: Seq<char>,
    host: Option<Seq<char>>,
    port: Option<u16>,
) -> Seq<char> {
    let host_text = match host {
        Some(h) => h,
        None => Seq::empty(),
    };
    let port_text = match port {
        Some(p) => ":"@ + text::decimal(p as nat),
        None => Seq::empty(),
    };
    scheme + "://"@ + host_text + port_text
}

/// The URL that a `Location` header names, where `origin` is the origin of the
/// endpoint, if the endpoint is a URL.
pub open spec fn resolved_location(
    location: Seq<char>,
    origin: Option<(Seq<char>, Option<Seq<char>>, Option<u16>)>,
) -> Seq<char> {
    if "http"@.is_prefix_of(location) {
        location
    } else {
        match origin {
            Some((scheme, host, port)) => origin_text(scheme, host, port) + location,
            None => location,
        }
    }
}

/// What a reply to an offer means, where `origin` is the origin of the endpoint,
/// if the endpoint is a URL.
pub open spec fn offer_outcome(
    reply: HttpResponseView,
    origin: Option<(Seq<char>, Option<Seq<char>>, Option<u16>)>,
) -> Result<WhipResultView, WhipErrorView> {
    if reply.status != 201 {
        Err(
            WhipErrorView::UnexpectedStatus {
                status: reply.status,
                body: match reply.body {
                    Ok(b) => b,
                    Err(_) => Seq::empty(),
                },
            },
        )
    } else {
        match reply.body {
            Ok(answer) => Ok(
                WhipResultView {
                    answer_sdp: answer,
                    session_url: resolved_location(
                        header_text(reply.headers, "location"@),
                        origin,
                    ),
                    etag: header_text(reply.headers, "etag"@),
                    resume_token: header_text(reply.headers, "x-resume-token"@),
                    resume_status: header_text(reply.headers, "x-resume-status"@),
                },
            ),
            Err(e) => Err(WhipErrorView::Request(e)),
        }
    }
}

/// What a reply to an ICE restart means, where `etag` was sent along.
pub open spec fn restart_outcome(
    reply: HttpResponseView,
    etag: Option<Seq<char>>,
) -> Result<WhipRestartResultView, WhipErrorView> {
    let tag = header_text(reply.headers, "etag"@);
    if reply.status != 200 {
        Err(
            WhipErrorView::RestartRejected {
                status: reply.status,
                body: match reply.body {
                    Ok(b) => b,
                    Err(_) => Seq::empty(),
                },
                current_etag: tag,
            },
        )
    } else {
        match reply.body {
            Ok(fragment) => Ok(
                WhipRestartResultView {
                    fragment,
                    etag: if tag.len() > 0 {
                        tag
                    } else {
                        match etag {
                            Some(t) => t,
                            None => Seq::empty(),
                        }
                    },
                },
            ),
            Err(e) => Err(WhipErrorView::Request(e)),
        }
    }
}

/// Whether a token endpoint's reply with this status carries a token.
pub open spec fn grants_token(status: u16) -> bool {
    status == 200
}

/// What a reply of a token endpoint means. Where the status grants a token,
/// `content` is the token in the body, or the words on why none could be read
/// off it; otherwise it is the body.
pub open spec fn token_outcome(
    status: u16,
    content: Result<Seq<char>, Seq<char>>,
) -> Result<Seq<char>, WhipErrorView> {
    if grants_token(status) {
        match content {
            Ok(token) => Ok(token),
            Err(e) => Err(WhipErrorView::TokenFetch(e)),
        }
    } else {
        Err(
            WhipErrorView::TokenFetch(
                "status "@ + text::decimal(status as nat) + ": "@ + match content {
                    Ok(body) => body,
                    Err(_) => Seq::empty(),
                },
            ),
        )
    }
}

/// `reqwest::Url::parse`, with `scheme`, `host_str` and `port` of what it gives:
/// none if the text is not an absolute URL. What origin a given text has is left
/// to the URL parser; it is the same for the same text.
#[verifier::external_body]
fn parse_origin(url: &str) -> (r: Option<(String, Option<String>, Option<u16>)>)
    ensures
        r.deep_view() == url_origin(url@),
{
    match reqwest::Url::parse(url) {
        Ok(u) => Some((u.scheme().to_string(), u.host_str().map(|h| h.to_string()), u.port())),
        Err(_) => None,
    }
}

/// Adds `value` under `name`.
fn push_pair(pairs: &mut Vec<(String, String)>, name: &str, value: &str)
    ensures
        final(pairs).deep_view() == old(pairs).deep_view().push((name@, value@)),
{
    let ghost before = pairs.deep_view();
    pairs.push((name.to_owned(), value.to_owned()));
    assert(pairs.deep_view() =~= before.push((name@, value@)));
}

/// Adds the header that authenticates with `token`, if there is one.
fn push_bearer(headers: &mut Vec<(String, String)>, token: Option<&str>)
    ensures
        final(headers).deep_view() == old(headers).deep_view() + bearer(token.deep_view()),
{
    if let Some(t) = token {
        push_pair(headers, "Authorization", text::concatenate("Bearer ", t).as_str());
    }
}

/// Adds `value` under `name`, if there is one.
fn push_if(pairs: &mut Vec<(String, String)>, name: &str, value: Option<&str>)
    ensures
        final(pairs).deep_view() == old(pairs).deep_view() + pair_if(name@, value.deep_view()),
{
    if let Some(v) = value {
        push_pair(pairs, name, v);
    }
}

/// Adds `value` under `name`, if there is one and it is not empty.
fn push_unless_empty(pairs: &mut Vec<(String, String)>, name: &str, value: Option<&str>)
    ensures
        final(pairs).deep_view() == old(pairs).deep_view() + pair_if(
            name@,
            unless_empty(value.deep_view()),
        ),
{
    if let Some(v) = value {
        if !v.is_empty() {
            push_pair(pairs, name, v);
        }
    }
}

/// The request that POSTs an SDP offer.
///
/// `resume_token` asks the server to reattach this new transport to the
/// conversation a previous connection was having, rather than starting a fresh
/// one. `resource_id` tells who is on the call.
pub fn whip_offer_request(
    endpoint: &str,
    offer_sdp: &str,
    token: Option<&str>,
    resume_token: Option<&str>,
    resource_id: Option<&str>,
) -> (r: HttpRequest)
    ensures
        r@ == offer_request(
            endpoint@,
            offer_sdp@,
            token.deep_view(),
            resume_token.deep_view(),
            resource_id.deep_view(),
        ),
{
    let mut query: Vec<(String, String)> = Vec::new();
    push_unless_empty(&mut query, "resume", resume_token);
    let mut headers: Vec<(String, String)> = Vec::new();
    push_pair(&mut headers, "Content-Type", "application/sdp");
    push_bearer(&mut headers, token);
    push_if(&mut headers, "X-StreamCore-Resource-Id", resource_id);
    let r = HttpRequest {
        method: Method::Post,
        url: endpoint.to_owned(),
        query,
        headers,
        body: Some(offer_sdp.to_owned()),
    };
    assert(r@ =~= offer_request(
        endpoint@,
        offer_sdp@,
        token.deep_view(),
        resume_token.deep_view(),
        resource_id.deep_view(),
    ));
    r
}

/// The request that sends an ICE restart to the session URL.
///
/// `etag` is sent as `If-Match` so a restart racing another one is rejected
/// rather than applied to a generation that no longer exists.
pub fn whip_restart_request(
    session_url: &str,
    fragment: &str,
    etag: Option<&str>,
    token: Option<&str>,
) -> (r: HttpRequest)
    ensures
        r@ == restart_request(session_url@, fragment@, etag.deep_view(), token.deep_view()),
{
    let mut headers: Vec<(String, String)> = Vec::new();
    push_pair(&mut headers, "Content-Type", ICE_FRAGMENT_CONTENT_TYPE);
    push_unless_empty(&mut headers, "If-Match", etag);
    push_bearer(&mut headers, token);
    let r = HttpRequest {
        method: Method::Patch,
        url: session_url.to_owned(),
        query: Vec::new(),
        headers,
        body: Some(fragment.to_owned()),
    };
    assert(r@ =~= restart_request(session_url@, fragment@, etag.deep_view(), token.deep_view()));
    r
}

/// The request that asks a token endpoint for a JWT. If `api_key` is there, it
/// is sent as a Bearer Authorization header; `resource_id` goes in the body for
/// the server to sign into the token.
pub fn fetch_token_request(
    token_url: &str,
    api_key: Option<&str>,
    resource_id: Option<&str>,
) -> (r: HttpRequest)
    ensures
        r@ == token_request(token_url@, api_key.deep_view(), resource_id.deep_view()),
{
    let mut headers: Vec<(String, String)> = Vec::new();
    push_bearer(&mut headers, api_key);
    let mut body: Option<String> = None;
    if let Some(id) = resource_id {
        push_pair(&mut headers, "Content-Type", "application/json");
        let mut json = "{\"resource_id\":".to_owned();
        json.append(text::render_json_string(id).as_str());
        json.append("}");
        body = Some(json);
    }
    let r = HttpRequest {
        method: Method::Post,
        url: token_url.to_owned(),
        query: Vec::new(),
        headers,
        body,
    };
    assert(r@ =~= token_request(token_url@, api_key.deep_view(), resource_id.deep_view()));
    r
}

/// The request that ends a WHIP session; there is nothing to end without a
/// session URL.
pub fn whip_delete_request(session_url: &str, token: Option<&str>) -> (r: Option<HttpRequest>)
    ensures
        r.deep_view() == delete_request(session_url@, token.deep_view()),
{
    if session_url.is_empty() {
        return None;
    }
    let mut headers: Vec<(String, String)> = Vec::new();
    push_bearer(&mut headers, token);
    let r = HttpRequest {
        method: Method::Delete,
        url: session_url.to_owned(),
        query: Vec::new(),
        headers,
        body: None,
    };
    assert(Some(r@) =~= delete_request(session_url@, token.deep_view()));
    Some(r)
}

/// The text of a header value; empty if it is not text.
fn value_text(value: &Vec<u8>) -> (r: String)
    ensures
        r@ == (if is_header_text(value@) {
            value@.map_values(|b: u8| b as char)
        } else {
            Seq::empty()
        }),
{
    let ghost all = value@.map_values(|b: u8| b as char);
    let mut out = String::new();
    let mut i: usize = 0;
    while i < value.len()
        invariant
            i <= value.len(),
            all == value@.map_values(|b: u8| b as char),
            out@ =~= all.take(i as int),
            forall|k: int| 0 <= k < i ==> (32 <= #[trigger] value@[k] < 127 || value@[k] == 9),
        decreases value.len() - i,
    {
        let b: u8 = value[i];
        if (b < 32 || b >= 127) && b != 9 {
            assert(!is_header_text(value@));
            return String::new();
        }
        out.push(b as char);
        i += 1;
    }
    assert(all.take(i as int) =~= all);
    out
}

/// The text of the first header with this name; empty if there is none or it is
/// not text.
pub fn read_header(headers: &Vec<(String, Vec<u8>)>, name: &str) -> (r: String)
    ensures
        r@ == header_text(headers.deep_view(), name@),
{
    let ghost all = headers.deep_view();
    let mut i: usize = 0;
    assert(all.skip(0) =~= all);
    while i < headers.len()
        invariant
            i <= headers.len(),
            all == headers.deep_view(),
            header_bytes(all, name@) == header_bytes(all.skip(i as int), name@),
        decreases headers.len() - i,
    {
        proof {
            assert(all.skip(i as int).drop_first() =~= all.skip(i + 1));
            assert(all.skip(i as int)[0] == headers[i as int].deep_view());
            assert(headers[i as int].1.deep_view() =~= headers[i as int].1@);
        }
        if text::same_text(headers[i].0.as_str(), name) {
            return value_text(&headers[i].1);
        }
        i += 1;
    }
    String::new()
}

/// The URL that a `Location` header names, where `origin` is the scheme, the host
/// and the port of the endpoint, if the endpoint is a URL.
pub fn resolve_location(
    location: &str,
    origin: &Option<(String, Option<String>, Option<u16>)>,
) -> (r: String)
    ensures
        r@ == resolved_location(location@, origin.deep_view()),
{
    if text::has_prefix(location, "http") {
        return location.to_owned();
    }
    match origin {
        Some((scheme, host, port)) => {
            let mut out = text::concatenate(scheme.as_str(), "://");
            if let Some(h) = host {
                out.append(h.as_str());
            }
            if let Some(p) = port {
                out.append(":");
                out.append(text::render_u64(*p as u64).as_str());
            }
            out.append(location);
            assert(out@ =~= resolved_location(location@, origin.deep_view()));
            out
        },
        None => location.to_owned(),
    }
}

/// What a body says; empty if it could not be read.
fn body_or_empty(body: Result<String, String>) -> (r: String)
    ensures
        r@ == (match body {
            Ok(b) => b@,
            Err(_) => Seq::empty(),
        }),
{
    match body {
        Ok(b) => b,
        Err(_) => String::new(),
    }
}

/// What a reply to an offer means, where `origin` is the scheme, the host and the
/// port of the endpoint, if the endpoint is a URL.
pub fn read_offer_reply(
    reply: HttpResponse,
    origin: &Option<(String, Option<String>, Option<u16>)>,
) -> (r: Result<WhipResult, WhipError>)
    ensures
        text::result_view(r) == offer_outcome(reply@, origin.deep_view()),
{
    if reply.status != 201 {
        return Err(
            WhipError::UnexpectedStatus { status: reply.status, body: body_or_empty(reply.body) },
        );
    }
    let location = read_header(&reply.headers, "location");
    let session_url = resolve_location(location.as_str(), origin);
    let etag = read_header(&reply.headers, "etag");
    let resume_token = read_header(&reply.headers, "x-resume-token");
    let resume_status = read_header(&reply.headers, "x-resume-status");
    match reply.body {
        Ok(answer_sdp) => Ok(
            WhipResult { answer_sdp, session_url, etag, resume_token, resume_status },
        ),
        Err(e) => Err(WhipError::Request(e)),
    }
}

/// What the reply to an offer that was POSTed to `endpoint` means.
///
/// Check `resume_status` on the result: a resume token the server no longer
/// recognises still yields a working call, but one whose agent remembers
/// nothing.
pub fn whip_offer_result(endpoint: &str, reply: HttpResponse) -> (r: Result<WhipResult, WhipError>)
    ensures
        text::result_view(r) == offer_outcome(reply@, url_origin(endpoint@)),
{
    let origin = parse_origin(endpoint);
    read_offer_reply(reply, &origin)
}

/// What a reply to an ICE restart means, where `etag` was sent along.
pub fn whip_restart_result(reply: HttpResponse, etag: Option<&str>) -> (r: Result<
    WhipRestartResult,
    WhipError,
>)
    ensures
        text::result_view(r) == restart_outcome(reply@, etag.deep_view()),
{
    let new_etag = read_header(&reply.headers, "etag");
    if reply.status != 200 {
        return Err(
            WhipError::RestartRejected {
                status: reply.status,
                body: body_or_empty(reply.body),
                current_etag: new_etag,
            },
        );
    }
    match reply.body {
        Ok(fragment) => {
            let kept = if !new_etag.as_str().is_empty() {
                new_etag
            } else {
                match etag {
                    Some(t) => t.to_owned(),
                    None => String::new(),
                }
            };
            Ok(WhipRestartResult { fragment, etag: kept })
        },
        Err(e) => Err(WhipError::Request(e)),
    }
}

/// Whether a token endpoint's reply with this status carries a token.
pub fn token_granted(status: u16) -> (r: bool)
    ensures
        r == grants_token(status),
{
    status == 200
}

/// What a reply of a token endpoint means. Where the status grants a token,
/// `content` is the token in the body, or the words on why none could be read
/// off it; otherwise it is the body.
pub fn fetch_token_result(status: u16, content: Result<String, String>) -> (r: Result<
    String,
    WhipError,
>)
    ensures
        text::result_view(r) == token_outcome(status, text::result_view(content)),
{
    if token_granted(status) {
        match content {
            Ok(token) => Ok(token),
            Err(e) => Err(WhipError::TokenFetch(e)),
        }
    } else {
        let mut why = "status ".to_owned();
        why.append(text::render_u64(status as u64).as_str());
        why.append(": ");
        why.append(body_or_empty(content).as_str());
        Err(WhipError::TokenFetch(why))
    }
}

} // verus!
