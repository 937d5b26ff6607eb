use streamcore_rust_sdk::whip::{
    fetch_token_request, fetch_token_result, read_header, read_offer_reply, resolve_location,
    token_granted, whip_delete_request, whip_offer_request, whip_offer_result,
    whip_restart_request, whip_restart_result, HttpResponse, Method, WhipError,
};

fn pairs(list: &[(&str, &str)]) -> Vec<(String, String)> {
    list.iter()
        .map(|(n, v)| (n.to_string(), v.to_string()))
        .collect()
}

fn reply(status: u16, headers: &[(&str, &[u8])], body: Result<&str, &str>) -> HttpResponse {
    HttpResponse {
        status,
        headers: headers
            .iter()
            .map(|(n, v)| (n.to_string(), v.to_vec()))
            .collect(),
        body: body.map(|b| b.to_string()).map_err(|e| e.to_string()),
    }
}

#[test]
fn offer_requests() {
    let plain = whip_offer_request("http://h/whip", "sdp", None, None, None);
    assert_eq!(plain.method, Method::Post);
    assert_eq!(plain.url, "http://h/whip");
    assert!(plain.query.is_empty());
    assert_eq!(plain.headers, pairs(&[("Content-Type", "application/sdp")]));
    assert_eq!(plain.body, Some("sdp".to_string()));

    let full = whip_offer_request("http://h/whip", "sdp", Some("jwt"), Some("rt"), Some("alice"));
    assert_eq!(full.query, pairs(&[("resume", "rt")]));
    assert_eq!(
        full.headers,
        pairs(&[
            ("Content-Type", "application/sdp"),
            ("Authorization", "Bearer jwt"),
            ("X-StreamCore-Resource-Id", "alice"),
        ])
    );
    // An empty resume token asks for nothing.
    assert!(whip_offer_request("u", "s", None, Some(""), None).query.is_empty());
}

#[test]
fn restart_requests() {
    let r = whip_restart_request("http://h/s", "frag", Some("\"1\""), Some("jwt"));
    assert_eq!(r.method, Method::Patch);
    assert_eq!(r.url, "http://h/s");
    assert_eq!(
        r.headers,
        pairs(&[
            ("Content-Type", "application/trickle-ice-sdpfrag"),
            ("If-Match", "\"1\""),
            ("Authorization", "Bearer jwt"),
        ])
    );
    assert_eq!(r.body, Some("frag".to_string()));
    let bare = whip_restart_request("http://h/s", "frag", Some(""), None);
    assert_eq!(
        bare.headers,
        pairs(&[("Content-Type", "application/trickle-ice-sdpfrag")])
    );
}

#[test]
fn token_requests() {
    let bare = fetch_token_request("http://h/token", None, None);
    assert_eq!(bare.method, Method::Post);
    assert!(bare.headers.is_empty());
    assert_eq!(bare.body, None);
    let full = fetch_token_request("http://h/token", Some("key"), Some("a\"b\n"));
    assert_eq!(
        full.headers,
        pairs(&[("Authorization", "Bearer key"), ("Content-Type", "application/json")])
    );
    let body = full.body.unwrap();
    assert_eq!(body, "{\"resource_id\":\"a\\\"b\\n\"}");
    let value: serde_json::Value = serde_json::from_str(&body).unwrap();
    assert_eq!(value["resource_id"], "a\"b\n");
}

#[test]
fn delete_requests() {
    assert!(whip_delete_request("", Some("jwt")).is_none());
    let r = whip_delete_request("http://h/s", Some("jwt")).unwrap();
    assert_eq!(r.method, Method::Delete);
    assert_eq!(r.url, "http://h/s");
    assert_eq!(r.headers, pairs(&[("Authorization", "Bearer jwt")]));
    assert_eq!(r.body, None);
    assert!(whip_delete_request("http://h/s", None).unwrap().headers.is_empty());
}

#[test]
fn offer_replies() {
    let headers: &[(&str, &[u8])] = &[
        ("location", b"/whip/7"),
        ("etag", b"\"e\""),
        ("x-resume-token", b"rt"),
        ("x-resume-status", b"resumed"),
    ];
    let ok = whip_offer_result("https://Example.com/whip", reply(201, headers, Ok("answer"))).unwrap();
    assert_eq!(ok.answer_sdp, "answer");
    assert_eq!(ok.session_url, "https://example.com/whip/7");
    assert_eq!(ok.etag, "\"e\"");
    assert_eq!(ok.resume_token, "rt");
    assert_eq!(ok.resume_status, "resumed");

    let bare = whip_offer_result("https://h/whip", reply(201, &[], Ok(""))).unwrap();
    assert_eq!(bare.session_url, "https://h");
    assert_eq!(bare.etag, "");

    match whip_offer_result("https://h/whip", reply(503, headers, Ok("full"))) {
        Err(WhipError::UnexpectedStatus { status, body }) => {
            assert_eq!(status, 503);
            assert_eq!(body, "full");
        }
        other => panic!("{:?}", other),
    }
    match whip_offer_result("https://h/whip", reply(200, headers, Err("gone"))) {
        Err(WhipError::UnexpectedStatus { status, body }) => {
            assert_eq!(status, 200);
            assert_eq!(body, "");
        }
        other => panic!("{:?}", other),
    }
    match whip_offer_result("https://h/whip", reply(201, headers, Err("gone"))) {
        Err(WhipError::Request(e)) => assert_eq!(e, "gone"),
        other => panic!("{:?}", other),
    }
}

#[test]
fn locations_resolve_against_the_endpoint() {
    let origin = Some(("http".to_string(), Some("h".to_string()), None));
    let with_port = Some(("http".to_string(), Some("localhost".to_string()), Some(8080)));
    let hostless = Some(("data".to_string(), None, None));
    assert_eq!(resolve_location("http://x/y", &origin), "http://x/y");
    assert_eq!(resolve_location("https://x/y", &None), "https://x/y");
    assert_eq!(resolve_location("/y", &origin), "http://h/y");
    assert_eq!(resolve_location("/whip/abc", &with_port), "http://localhost:8080/whip/abc");
    assert_eq!(resolve_location("/y", &hostless), "data:///y");
    assert_eq!(resolve_location("/y", &None), "/y");

    let location: &[(&str, &[u8])] = &[("location", b"/s")];
    let url = |endpoint: &str| {
        whip_offer_result(endpoint, reply(201, location, Ok("")))
            .unwrap()
            .session_url
    };
    assert_eq!(url("no url"), "/s");
    assert_eq!(url("HTTP://user@Host.example:8080/whip?x"), "http://host.example:8080/s");
    assert_eq!(url("http://localhost:8080/whip"), "http://localhost:8080/s");
    assert_eq!(url("https://h:443/whip"), "https://h/s");
    assert_eq!(url("http://[::1]:9/whip"), "http://[::1]:9/s");
    let direct = read_offer_reply(reply(201, location, Ok("")), &origin).unwrap();
    assert_eq!(direct.session_url, "http://h/s");
    let direct = read_offer_reply(reply(201, location, Ok("")), &with_port).unwrap();
    assert_eq!(direct.session_url, "http://localhost:8080/s");
}

#[test]
fn headers_that_are_not_text_read_as_empty() {
    let headers: Vec<(String, Vec<u8>)> = vec![
        ("a".to_string(), b"x\ty ~".to_vec()),
        ("a".to_string(), b"second".to_vec()),
        ("b".to_string(), vec![0xc3, 0xa4]),
        ("c".to_string(), vec![127]),
        ("d".to_string(), vec![31]),
    ];
    assert_eq!(read_header(&headers, "a"), "x\ty ~");
    for name in ["b", "c", "d", "e"] {
        assert_eq!(read_header(&headers, name), "");
    }
    // As the HTTP client's own header values have it.
    for b in 0..=255u8 {
        if let Ok(value) = reqwest::header::HeaderValue::from_bytes(&[b]) {
            let headers = vec![("n".to_string(), vec![b])];
            assert_eq!(read_header(&headers, "n"), value.to_str().unwrap_or(""));
        }
    }
}

#[test]
fn restart_replies() {
    let ok = whip_restart_result(reply(200, &[("etag", b"new")], Ok("frag")), Some("old")).unwrap();
    assert_eq!(ok.fragment, "frag");
    assert_eq!(ok.etag, "new");
    let kept = whip_restart_result(reply(200, &[], Ok("frag")), Some("old")).unwrap();
    assert_eq!(kept.etag, "old");
    let none = whip_restart_result(reply(200, &[], Ok("frag")), None).unwrap();
    assert_eq!(none.etag, "");
    match whip_restart_result(reply(412, &[("etag", b"cur")], Ok("no")), Some("old")) {
        Err(WhipError::RestartRejected { status, body, current_etag }) => {
            assert_eq!(status, 412);
            assert_eq!(body, "no");
            assert_eq!(current_etag, "cur");
        }
        other => panic!("{:?}", other),
    }
    match whip_restart_result(reply(200, &[], Err("cut")), None) {
        Err(WhipError::Request(e)) => assert_eq!(e, "cut"),
        other => panic!("{:?}", other),
    }
}

#[test]
fn token_replies() {
    assert!(token_granted(200));
    assert!(!token_granted(201));
    assert_eq!(fetch_token_result(200, Ok("jwt".to_string())).unwrap(), "jwt");
    match fetch_token_result(200, Err("bad json".to_string())) {
        Err(WhipError::TokenFetch(e)) => assert_eq!(e, "bad json"),
        other => panic!("{:?}", other),
    }
    match fetch_token_result(401, Ok("denied".to_string())) {
        Err(WhipError::TokenFetch(e)) => assert_eq!(e, "status 401: denied"),
        other => panic!("{:?}", other),
    }
    match fetch_token_result(500, Err("cut".to_string())) {
        Err(WhipError::TokenFetch(e)) => assert_eq!(e, "status 500: "),
        other => panic!("{:?}", other),
    }
}

#[test]
fn errors_tell_whether_a_restart_can_be_retried() {
    let rejected = |status: u16| WhipError::RestartRejected {
        status,
        body: "b".to_string(),
        current_etag: String::new(),
    };
    for status in [404, 405, 409] {
        assert!(!rejected(status).restart_retryable());
    }
    for status in [200, 400, 412, 500] {
        assert!(rejected(status).restart_retryable());
    }
    assert!(WhipError::Request("e".to_string()).restart_retryable());
    assert!(WhipError::TokenFetch("e".to_string()).restart_retryable());
    let unexpected = WhipError::UnexpectedStatus { status: 404, body: "x".to_string() };
    assert!(unexpected.restart_retryable());
    assert_eq!(unexpected.message(), "unexpected status 404: x");
    assert_eq!(rejected(409).message(), "ICE restart failed (409): b");
    assert_eq!(WhipError::Request("e".to_string()).message(), "HTTP request failed: e");
    assert_eq!(WhipError::TokenFetch("e".to_string()).message(), "token fetch failed: e");
}
