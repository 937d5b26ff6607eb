//! What a request must carry and what a reply must be taken for.
use vstd::prelude::*;

use crate::text;
use crate::whip;
use crate::whip::{HttpResponseView, Method, WhipErrorView};

verus! {

/// `p` if it is there, nothing otherwise.
spec fn listed(p: Option<(Seq<char>, Seq<char>)>) -> Seq<(Seq<char>, Seq<char>)> {
    match p {
        Some(q) => seq![q],
        None => Seq::empty(),
    }
}

proof fn lemma_listed(
    all: Seq<(Seq<char>, Seq<char>)>,
    a: Option<(Seq<char>, Seq<char>)>,
    b: Option<(Seq<char>, Seq<char>)>,
    c: Option<(Seq<char>, Seq<char>)>,
)
    requires
        all == listed(a) + listed(b) + listed(c),
    ensures
        forall|p: (Seq<char>, Seq<char>)| #[trigger]
            all.contains(p) <==> a == Some(p) || b == Some(p) || c == Some(p),
{
    assert forall|p: (Seq<char>, Seq<char>)| #[trigger] all.contains(p) <==> (a == Some(p) || b
        == Some(p) || c == Some(p)) by {
        let na = listed(a).len() as int;
        let nb = listed(b).len() as int;
        if a == Some(p) {
            assert(all[0] == p);
        }
        if b == Some(p) {
            assert(all[na] == p);
        }
        if c == Some(p) {
            assert(all[na + nb] == p);
        }
        if all.contains(p) {
            let i = choose|i: int| 0 <= i < all.len() && all[i] == p;
            if i < na {
                assert(listed(a)[i] == p);
            } else if i < na + nb {
                assert(listed(b)[i - na] == p);
            } else {
                assert(listed(c)[i - na - nb] == p);
            }
        }
    }
}

/// The credentials header of `key`, if there is one.
spec fn credentials(key: Option<Seq<char>>) -> Option<(Seq<char>, Seq<char>)> {
    match key {
        Some(k) => Some(("Authorization"@, "Bearer "@ + k)),
        None => None,
    }
}

/// An offer is POSTed to the endpoint as an SDP body. It carries the token as
/// Bearer credentials if there is one, who is on the call if that is given, and
/// nothing else; it asks to resume exactly if there is a resume token that is not
/// empty.
pub proof fn law_offer_request(
    endpoint: Seq<char>,
    sdp: Seq<char>,
    token: Option<Seq<char>>,
    resume: Option<Seq<char>>,
    id: Option<Seq<char>>,
    name: Seq<char>,
    value: Seq<char>,
)
    ensures
        ({
            let r = whip::offer_request(endpoint, sdp, token, resume, id);
            &&& r.method == Method::Post
            &&& r.url == endpoint
            &&& r.body == Some(sdp)
            &&& r.headers.contains((name, value)) <==> {
                ||| name == "Content-Type"@ && value == "application/sdp"@
                ||| name == "Authorization"@ && token is Some && value == "Bearer "@ + token->0
                ||| name == "X-StreamCore-Resource-Id"@ && id == Some(value)
            }
            &&& r.headers.len() == 1 + (if token is Some {
                1int
            } else {
                0
            }) + (if id is Some {
                1int
            } else {
                0
            })
            &&& r.query.contains((name, value)) <==> name == "resume"@ && resume == Some(value)
                && value.len() > 0
            &&& r.query.len() <= 1
        }),
{
    let r = whip::offer_request(endpoint, sdp, token, resume, id);
    let who = match id {
        Some(i) => Some(("X-StreamCore-Resource-Id"@, i)),
        None => None,
    };
    let kind = Some(("Content-Type"@, "application/sdp"@));
    assert(r.headers =~= listed(kind) + listed(credentials(token)) + listed(who));
    lemma_listed(r.headers, kind, credentials(token), who);
    let ask = match resume {
        Some(t) => if t.len() > 0 {
            Some(("resume"@, t))
        } else {
            None
        },
        None => None,
    };
    assert(r.query =~= listed(ask) + listed(None) + listed(None));
    lemma_listed(r.query, ask, None, None);
}

/// An ICE restart is PATCHed to the session as a fragment. It carries the tag to
/// match if that is not empty, the token as Bearer credentials if there is one,
/// and nothing else.
pub proof fn law_restart_request(
    url: Seq<char>,
    fragment: Seq<char>,
    etag: Option<Seq<char>>,
    token: Option<Seq<char>>,
    name: Seq<char>,
    value: Seq<char>,
)
    ensures
        ({
            let r = whip::restart_request(url, fragment, etag, token);
            &&& r.method == Method::Patch
            &&& r.url == url
            &&& r.body == Some(fragment)
            &&& r.query.len() == 0
            &&& r.headers.contains((name, value)) <==> {
                ||| name == "Content-Type"@ && value == "application/trickle-ice-sdpfrag"@
                ||| name == "If-Match"@ && etag == Some(value) && value.len() > 0
                ||| name == "Authorization"@ && token is Some && value == "Bearer "@ + token->0
            }
            &&& r.headers.len() == 1 + (if etag is Some && etag->0.len() > 0 {
                1int
            } else {
                0
            }) + (if token is Some {
                1int
            } else {
                0
            })
        }),
{
    let r = whip::restart_request(url, fragment, etag, token);
    let kind = Some(("Content-Type"@, "application/trickle-ice-sdpfrag"@));
    let tag = match etag {
        Some(t) => if t.len() > 0 {
            Some(("If-Match"@, t))
        } else {
            None
        },
        None => None,
    };
    assert(r.headers =~= listed(kind) + listed(tag) + listed(credentials(token)));
    lemma_listed(r.headers, kind, tag, credentials(token));
}

/// A token is asked for by a POST that carries the API key as Bearer credentials
/// if and only if there is one, whoever is on the call. Who that is goes into a
/// JSON body, and without it there is no body.
pub proof fn law_token_request(
    url: Seq<char>,
    key: Option<Seq<char>>,
    id: Option<Seq<char>>,
    name: Seq<char>,
    value: Seq<char>,
)
    ensures
        ({
            let r = whip::token_request(url, key, id);
            &&& r.method == Method::Post
            &&& r.url == url
            &&& r.query.len() == 0
            &&& r.headers.contains((name, value)) <==> {
                ||| name == "Authorization"@ && key is Some && value == "Bearer "@ + key->0
                ||| name == "Content-Type"@ && id is Some && value == "application/json"@
            }
            &&& r.headers.len() == (if key is Some {
                1int
            } else {
                0
            }) + (if id is Some {
                1int
            } else {
                0
            })
            &&& r.body is Some <==> id is Some
            &&& id matches Some(i) ==> r.body == Some(
                "{\"resource_id\":"@ + text::json_string(i) + "}"@,
            )
        }),
{
    let r = whip::token_request(url, key, id);
    let kind = match id {
        Some(_) => Some(("Content-Type"@, "application/json"@)),
        None => None,
    };
    assert(r.headers =~= listed(credentials(key)) + listed(kind) + listed(None));
    lemma_listed(r.headers, credentials(key), kind, None);
}

/// A session is ended by a DELETE to its URL that carries the token as Bearer
/// credentials if there is one and nothing else; without a URL nothing is sent.
pub proof fn law_delete_request(
    url: Seq<char>,
    token: Option<Seq<char>>,
    name: Seq<char>,
    value: Seq<char>,
)
    ensures
        whip::delete_request(url, token) is Some <==> url.len() > 0,
        whip::delete_request(url, token) matches Some(r) ==> {
            &&& r.method == Method::Delete
            &&& r.url == url
            &&& r.query.len() == 0
            &&& r.body is None
            &&& r.headers.contains((name, value)) <==> name == "Authorization"@ && token is Some
                && value == "Bearer "@ + token->0
            &&& r.headers.len() == (if token is Some {
                1int
            } else {
                0
            })
        },
{
    if let Some(r) = whip::delete_request(url, token) {
        assert(r.headers =~= listed(credentials(token)) + listed(None) + listed(None));
        lemma_listed(r.headers, credentials(token), None, None);
    }
}

/// A header is the first with its name: one with another name before it makes no
/// difference, and what comes after it makes none either. Without one the text is
/// empty.
pub proof fn law_first_header_counts(
    headers: Seq<(Seq<char>, Seq<u8>)>,
    other: Seq<char>,
    name: Seq<char>,
    value: Seq<u8>,
)
    ensures
        whip::header_text(Seq::empty(), name).len() == 0,
        other != name ==> whip::header_text(seq![(other, value)] + headers, name)
            == whip::header_text(headers, name),
        whip::header_text(seq![(name, value)] + headers, name) == whip::header_text(
            seq![(name, value)],
            name,
        ),
{
    let a = seq![(other, value)] + headers;
    assert(a[0] == (other, value));
    assert(a.drop_first() =~= headers);
    let b = seq![(name, value)] + headers;
    assert(b[0] == (name, value));
}

/// The text of a header is its bytes as characters if all of them are visible
/// ASCII, blanks or tabs, and empty if one is not.
pub proof fn law_header_text(name: Seq<char>, value: Seq<u8>)
    ensures
        ({
            let t = whip::header_text(seq![(name, value)], name);
            &&& (forall|i: int|
                0 <= i < value.len() ==> (32 <= #[trigger] value[i] <= 126 || value[i] == 9))
                ==> t.len() == value.len() && forall|i: int|
                0 <= i < value.len() ==> (#[trigger] t[i]) as int == value[i] as int
            &&& (exists|i: int|
                0 <= i < value.len() && !(32 <= #[trigger] value[i] <= 126 || value[i] == 9))
                ==> t.len() == 0
        }),
{
    let h = seq![(name, value)];
    assert(h[0] == (name, value));
    assert(whip::header_bytes(h, name) == Some(value));
    if exists|i: int|
        0 <= i < value.len() && !(32 <= #[trigger] value[i] <= 126 || value[i] == 9) {
        let i = choose|i: int|
            0 <= i < value.len() && !(32 <= #[trigger] value[i] <= 126 || value[i] == 9);
        assert(!(32 <= value[i] < 127 || value[i] == 9));
        assert(!whip::is_header_text(value));
    }
}

/// A location that begins with "http" is the session's URL itself; any other
/// stands after the endpoint's own scheme, host and port, so that the session is
/// on the server that the offer was sent to.
pub proof fn law_location(
    location: Seq<char>,
    scheme: Seq<char>,
    host: Seq<char>,
    port: u16,
    origin: Option<(Seq<char>, Option<Seq<char>>, Option<u16>)>,
)
    ensures
        "http"@.is_prefix_of(location) ==> whip::resolved_location(location, origin) == location,
        whip::resolved_location(location, None) == location,
        !"http"@.is_prefix_of(location) ==> {
            &&& whip::resolved_location(location, Some((scheme, Some(host), Some(port)))) == scheme
                + "://"@ + host + ":"@ + text::decimal(port as nat) + location
            &&& whip::resolved_location(location, Some((scheme, Some(host), None))) == scheme
                + "://"@ + host + location
            &&& whip::resolved_location(location, Some((scheme, None, Some(port)))) == scheme
                + "://:"@ + text::decimal(port as nat) + location
            &&& whip::resolved_location(location, Some((scheme, None, None))) == scheme + "://"@
                + location
        },
{
    reveal_strlit("://");
    reveal_strlit(":");
    reveal_strlit("://:");
    assert("://:"@ =~= "://"@ + ":"@);
    let digits = text::decimal(port as nat);
    assert(scheme + "://"@ + host + (":"@ + digits) + location =~= scheme + "://"@ + host + ":"@
        + digits + location);
    assert(scheme + "://"@ + host + Seq::empty() + location =~= scheme + "://"@ + host + location);
    assert(scheme + "://"@ + Seq::empty() + (":"@ + digits) + location =~= scheme + "://:"@
        + digits + location);
    assert(scheme + "://"@ + Seq::empty() + Seq::empty() + location =~= scheme + "://"@ + location);
}

/// An offer is accepted if and only if the reply is a 201 with a body that could
/// be read. Then the body is the answer, the location header the session, and the
/// other headers its tag, its resume token and whether it was resumed.
pub proof fn law_offer_reply(
    reply: HttpResponseView,
    origin: Option<(Seq<char>, Option<Seq<char>>, Option<u16>)>,
)
    ensures
        ({
            let r = whip::offer_outcome(reply, origin);
            &&& r is Ok <==> reply.status == 201 && reply.body is Ok
            &&& r matches Ok(s) ==> {
                &&& reply.body == Ok::<Seq<char>, Seq<char>>(s.answer_sdp)
                &&& s.session_url == whip::resolved_location(
                    whip::header_text(reply.headers, "location"@),
                    origin,
                )
                &&& s.etag == whip::header_text(reply.headers, "etag"@)
                &&& s.resume_token == whip::header_text(reply.headers, "x-resume-token"@)
                &&& s.resume_status == whip::header_text(reply.headers, "x-resume-status"@)
            }
            &&& reply.status == 201 && reply.body is Err ==> (r matches Err(
                WhipErrorView::Request(why),
            ) && why == reply.body->Err_0)
            &&& reply.status != 201 ==> {
                &&& r matches Err(WhipErrorView::UnexpectedStatus { status, body })
                &&& status == reply.status
                &&& reply.body is Ok ==> body == reply.body->Ok_0
                &&& reply.body is Err ==> body.len() == 0
            }
        }),
{
}

/// A restart is accepted if and only if the reply is a 200 with a body that could
/// be read. Then the body is the fragment, and the tag is the reply's, or the one
/// that was sent if the reply has none.
pub proof fn law_restart_reply(reply: HttpResponseView, etag: Option<Seq<char>>)
    ensures
        ({
            let r = whip::restart_outcome(reply, etag);
            let tag = whip::header_text(reply.headers, "etag"@);
            &&& r is Ok <==> reply.status == 200 && reply.body is Ok
            &&& r matches Ok(s) ==> {
                &&& reply.body == Ok::<Seq<char>, Seq<char>>(s.fragment)
                &&& tag.len() > 0 ==> s.etag == tag
                &&& tag.len() == 0 && etag is Some ==> etag == Some(s.etag)
                &&& tag.len() == 0 && etag is None ==> s.etag.len() == 0
            }
            &&& reply.status == 200 && reply.body is Err ==> (r matches Err(
                WhipErrorView::Request(why),
            ) && why == reply.body->Err_0)
            &&& reply.status != 200 ==> {
                &&& r matches Err(WhipErrorView::RestartRejected { status, body, current_etag })
                &&& status == reply.status
                &&& current_etag == tag
                &&& reply.body is Ok ==> body == reply.body->Ok_0
                &&& reply.body is Err ==> body.len() == 0
            }
        }),
{
}

/// A token is granted if and only if the status is 200 and a token could be read;
/// every other reply is a failed fetch, with the reason or with the status and
/// the body.
pub proof fn law_token_reply(status: u16, content: Result<Seq<char>, Seq<char>>)
    ensures
        ({
            let r = whip::token_outcome(status, content);
            &&& whip::grants_token(status) <==> status == 200
            &&& r is Ok <==> status == 200 && content is Ok
            &&& r is Ok ==> r->Ok_0 == content->Ok_0
            &&& status == 200 && content is Err ==> r == Err::<Seq<char>, _>(
                WhipErrorView::TokenFetch(content->Err_0),
            )
            &&& status != 200 && content is Ok ==> r == Err::<Seq<char>, _>(
                WhipErrorView::TokenFetch(
                    "status "@ + text::decimal(status as nat) + ": "@ + content->Ok_0,
                ),
            )
            &&& status != 200 && content is Err ==> r == Err::<Seq<char>, _>(
                WhipErrorView::TokenFetch("status "@ + text::decimal(status as nat) + ": "@),
            )
        }),
{
    let head = "status "@ + text::decimal(status as nat) + ": "@;
    assert(head + Seq::empty() =~= head);
}

/// Only a server that turned a restart down with 404, 405 or 409 cannot be asked
/// again.
pub proof fn law_what_is_retryable(e: WhipErrorView)
    ensures
        !e.restart_retryable() <==> (e matches WhipErrorView::RestartRejected { status, .. } && (
        status == 404 || status == 405 || status == 409)),
{
}

/// What is said of each error: what failed, and the words, the status and the body
/// that came with it.
pub proof fn law_error_words(e: WhipErrorView)
    ensures
        e matches WhipErrorView::Request(why) ==> e.message() == "HTTP request failed: "@ + why,
        e matches WhipErrorView::TokenFetch(why) ==> e.message() == "token fetch failed: "@ + why,
        e matches WhipErrorView::UnexpectedStatus { status, body } ==> e.message()
            == "unexpected status "@ + text::decimal(status as nat) + ": "@ + body,
        e matches WhipErrorView::RestartRejected { status, body, .. } ==> e.message()
            == "ICE restart failed ("@ + text::decimal(status as nat) + "): "@ + body,
{
}

} // verus!
