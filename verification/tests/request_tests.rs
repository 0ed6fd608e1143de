use request_core::cookies::CookieEntry;
use request_core::error::UrlGenerationError;
use request_core::headers::HeaderList;
use request_core::payload::Payload;
use request_core::request::{HttpRequest, RequestContext, RequestState, Version};
use request_core::router::{Params, Resource, Router};

fn build_request(
    headers: Vec<(&str, &str)>,
    target: &str,
    params: Vec<(&str, &str)>,
    router: Router,
    payload: Option<Payload>,
) -> HttpRequest<()> {
    let mut hs = HeaderList::new();
    for (n, v) in headers {
        hs.add(n.to_string(), v.to_string());
    }
    let mut ps = Params::new();
    for (k, v) in params {
        ps.add(k.to_string(), v.to_string());
    }
    let ctx = RequestContext::new(
        hs,
        "GET".to_string(),
        Version::Http11,
        target.to_string(),
        None,
        ps,
        payload,
    );
    let state = RequestState::new((), router, None);
    HttpRequest::from_state(ctx, state)
}

fn default_router() -> Router {
    Router::new("", Vec::new())
}

fn strings(vals: &[&str]) -> Vec<String> {
    vals.iter().map(|v| v.to_string()).collect()
}

#[test]
fn test_debug() {
    let req = build_request(
        vec![("content-type", "text/plain")],
        "/",
        vec![],
        default_router(),
        None,
    );
    let dbg = req.debug_dump();
    assert!(dbg.contains("HttpRequest"));
}

#[test]
fn test_no_request_cookies() {
    let req = build_request(vec![], "/", vec![], default_router(), None);
    assert!(req.cookies().unwrap().is_empty());
}

#[test]
fn test_request_cookies() {
    let req = build_request(
        vec![("cookie", "cookie1=value1"), ("cookie", "cookie2=value2")],
        "/",
        vec![],
        default_router(),
        None,
    );
    {
        let cookies = req.cookies().unwrap();
        assert_eq!(cookies.len(), 2);
        assert_eq!(cookies[0].name(), "cookie1");
        assert_eq!(cookies[0].value(), "value1");
        assert_eq!(cookies[1].name(), "cookie2");
        assert_eq!(cookies[1].value(), "value2");
    }

    let cookie = req.cookie("cookie1");
    assert!(cookie.is_some());
    let cookie = cookie.unwrap();
    assert_eq!(cookie.name(), "cookie1");
    assert_eq!(cookie.value(), "value1");

    let cookie = req.cookie("cookie-unknown");
    assert!(cookie.is_none());
}

#[test]
fn test_request_query() {
    let req = build_request(vec![], "/?id=test", vec![], default_router(), None);
    assert_eq!(req.query_string(), "id=test");
    let query = req.query();
    assert_eq!(query.get("id").unwrap(), "test");
}

#[test]
fn test_request_match_info() {
    let req = build_request(
        vec![],
        "/value/?id=test",
        vec![("key", "value")],
        default_router(),
        None,
    );
    assert_eq!(req.path(), "/value/");
    assert_eq!(req.match_info().get("key").unwrap(), "value");
}

#[test]
fn test_url_for() {
    let routes = vec![Resource::new("index", "/user/{name}.{ext}")];
    let router = Router::new("/", routes);
    let req = build_request(
        vec![("host", "www.rust-lang.org")],
        "/",
        vec![],
        router,
        None,
    );

    assert!(matches!(
        req.url_for("unknown", &strings(&["test"])),
        Err(UrlGenerationError::ResourceNotFound)
    ));
    assert!(matches!(
        req.url_for("index", &strings(&["test"])),
        Err(UrlGenerationError::NotEnoughElements)
    ));
    let url = req.url_for("index", &strings(&["test", "html"]));
    assert_eq!(
        url.ok().unwrap().as_str(),
        "http://www.rust-lang.org/user/test.html"
    );
}

#[test]
fn test_url_for_with_prefix() {
    let routes = vec![Resource::new("index", "/user/{name}.html")];
    let router = Router::new("/prefix/", routes);
    let req = build_request(
        vec![("host", "www.rust-lang.org")],
        "/",
        vec![],
        router,
        None,
    );
    let url = req.url_for("index", &strings(&["test"]));
    assert_eq!(
        url.ok().unwrap().as_str(),
        "http://www.rust-lang.org/prefix/user/test.html"
    );
}

#[test]
fn test_url_for_static() {
    let routes = vec![Resource::new("index", "/index.html")];
    let router = Router::new("/prefix/", routes);
    let req = build_request(
        vec![("host", "www.rust-lang.org")],
        "/",
        vec![],
        router,
        None,
    );
    let url = req.url_for_static("index");
    assert_eq!(
        url.ok().unwrap().as_str(),
        "http://www.rust-lang.org/prefix/index.html"
    );
}

#[test]
fn test_url_for_external() {
    let routes = vec![Resource::external(
        "youtube",
        "https://youtube.com/watch/{video_id}",
    )];
    let router = Router::new("", routes);
    let req = build_request(vec![], "/", vec![], router, None);
    let url = req.url_for("youtube", &strings(&["oHg5SJYRHA0"]));
    assert_eq!(url.ok().unwrap().as_str(), "https://youtube.com/watch/oHg5SJYRHA0");
}

#[test]
fn take_payload_take_once_across_clones() {
    let chunks = vec![b"hello".to_vec(), b"world".to_vec()];
    let req = build_request(
        vec![],
        "/",
        vec![],
        default_router(),
        Some(Payload::from_chunks(chunks)),
    );
    let clone_a = req.clone();
    let clone_b = req.clone();

    let first = clone_a.take_payload();
    assert!(!first.is_empty());
    assert_eq!(first.chunk_count(), 2);
    assert_eq!(first.chunk_at(0).as_slice(), b"hello");
    assert_eq!(first.chunk_at(1).as_slice(), b"world");

    let second = clone_b.take_payload();
    assert!(second.is_empty());
    let third = req.take_payload();
    assert!(third.is_empty());
}

#[test]
fn take_payload_without_body_is_empty() {
    let req = build_request(vec![], "/", vec![], default_router(), None);
    assert!(req.take_payload().is_empty());
}

#[test]
fn cookies_agree_across_clones() {
    let req = build_request(
        vec![("cookie", "a=1; b=2")],
        "/",
        vec![],
        default_router(),
        None,
    );
    let clone = req.clone();
    let from_original: Vec<CookieEntry> = req.cookies().unwrap();
    let from_clone: Vec<CookieEntry> = clone.cookies().unwrap();
    assert_eq!(from_original.len(), from_clone.len());
    for i in 0..from_original.len() {
        assert_eq!(from_original[i].name(), from_clone[i].name());
        assert_eq!(from_original[i].value(), from_clone[i].value());
    }
}

#[test]
fn cookie_pairs_single_header_in_order() {
    let req = build_request(
        vec![("cookie", "cookie1=value1; cookie2=value2")],
        "/",
        vec![],
        default_router(),
        None,
    );
    let cookies = req.cookies().unwrap();
    assert_eq!(cookies.len(), 2);
    assert_eq!(cookies[0].name(), "cookie1");
    assert_eq!(cookies[0].value(), "value1");
    assert_eq!(cookies[1].name(), "cookie2");
    assert_eq!(cookies[1].value(), "value2");
}

#[test]
fn cookie_percent_decoding_applies() {
    let req = build_request(
        vec![("cookie", "name=val%20ue")],
        "/",
        vec![],
        default_router(),
        None,
    );
    let cookies = req.cookies().unwrap();
    assert_eq!(cookies.len(), 1);
    assert_eq!(cookies[0].value(), "val ue");
}

#[test]
fn cookie_empty_segments_dropped_and_whitespace_trimmed() {
    let req = build_request(
        vec![("cookie", " c=v ; ; d=w ")],
        "/",
        vec![],
        default_router(),
        None,
    );
    let cookies = req.cookies().unwrap();
    assert_eq!(cookies.len(), 2);
    assert_eq!(cookies[0].name(), "c");
    assert_eq!(cookies[0].value(), "v");
    assert_eq!(cookies[1].name(), "d");
    assert_eq!(cookies[1].value(), "w");
}

#[test]
fn malformed_cookie_segment_fails_with_segment() {
    let req = build_request(
        vec![("cookie", "good=1; bad-segment")],
        "/",
        vec![],
        default_router(),
        None,
    );
    let err = req.cookies().unwrap_err();
    assert_eq!(err.segment(), "bad-segment");
    assert!(req.cookie("good").is_none());
}

#[test]
fn query_duplicate_keys_last_wins() {
    let req = build_request(vec![], "/?a=first&a=last&b=x", vec![], default_router(), None);
    let query = req.query();
    assert_eq!(query.get("a").unwrap(), "last");
    assert_eq!(query.get("b").unwrap(), "x");
    assert!(query.get("missing").is_none());
}

#[test]
fn query_percent_decoding_applies() {
    let req = build_request(vec![], "/?id=te%73t&na%6de=v", vec![], default_router(), None);
    let query = req.query();
    assert_eq!(query.get("id").unwrap(), "test");
    assert_eq!(query.get("name").unwrap(), "v");
}

#[test]
fn query_string_empty_without_query() {
    let req = build_request(vec![], "/plain/path", vec![], default_router(), None);
    assert_eq!(req.query_string(), "");
    assert_eq!(req.path(), "/plain/path");
    assert!(req.query().is_empty());
}

#[test]
fn url_for_static_matches_url_for_with_empty_list() {
    let routes = vec![Resource::new("index", "/index.html")];
    let router = Router::new("", routes);
    let req = build_request(vec![("host", "www.example.org")], "/", vec![], router, None);
    let a = req.url_for_static("index").unwrap();
    let b = req.url_for("index", &Vec::new()).unwrap();
    assert_eq!(a.as_str(), b.as_str());
}

#[test]
fn url_for_host_from_host_header() {
    let routes = vec![Resource::new("index", "/user/{name}.{ext}")];
    let router = Router::new("", routes);
    let req = build_request(vec![("host", "www.example.org")], "/", vec![], router, None);
    let url = req.url_for("index", &strings(&["test", "html"]));
    assert_eq!(
        url.ok().unwrap().as_str(),
        "http://www.example.org/user/test.html"
    );
}

#[test]
fn url_for_unparsable_result_is_urlparse_error() {
    let routes = vec![Resource::external("odd", "notaurl-{x}")];
    let router = Router::new("", routes);
    let req = build_request(vec![], "/", vec![], router, None);
    assert!(matches!(
        req.url_for("odd", &strings(&["abc"])),
        Err(UrlGenerationError::UrlParse)
    ));
}

#[test]
fn url_normalization_comes_from_parser() {
    let routes = vec![Resource::external("ext", "HTTPS://WWW.Example.ORG/Watch/{v}")];
    let router = Router::new("", routes);
    let req = build_request(vec![], "/", vec![], router, None);
    let url = req.url_for("ext", &strings(&["abc"])).unwrap();
    assert_eq!(url.as_str(), "https://www.example.org/Watch/abc");
}

#[test]
fn connection_info_prefers_forwarding_headers() {
    let req = build_request(
        vec![
            ("x-forwarded-proto", "https"),
            ("x-forwarded-host", "front.example.com"),
            ("host", "inner.example.com"),
        ],
        "/",
        vec![],
        default_router(),
        None,
    );
    let conn = req.connection_info();
    assert_eq!(conn.scheme(), "https");
    assert_eq!(conn.host(), "front.example.com");
}

#[test]
fn connection_info_defaults() {
    let req = build_request(vec![], "/", vec![], default_router(), None);
    let conn = req.connection_info();
    assert_eq!(conn.scheme(), "http");
    assert_eq!(conn.host(), "localhost");
}

#[test]
fn header_lookup_is_case_insensitive_and_ordered() {
    let req = build_request(
        vec![("Cookie", "a=1"), ("COOKIE", "b=2")],
        "/",
        vec![],
        default_router(),
        None,
    );
    let all = req.headers().get_all("cookie");
    assert_eq!(all.len(), 2);
    assert_eq!(all[0], "a=1");
    assert_eq!(all[1], "b=2");
    let cookies = req.cookies().unwrap();
    assert_eq!(cookies.len(), 2);
    assert_eq!(cookies[0].name(), "a");
    assert_eq!(cookies[1].name(), "b");
}

#[test]
fn extensions_shared_across_clones() {
    let req = build_request(vec![], "/", vec![], default_router(), None);
    let clone = req.clone();
    req.extensions_insert(7, b"seven".to_vec());
    let bag = clone.extensions();
    assert_eq!(bag.get(7).unwrap().as_slice(), b"seven");
    assert!(bag.get(8).is_none());
    clone.extensions_insert(7, b"newer".to_vec());
    assert_eq!(req.extensions().get(7).unwrap().as_slice(), b"newer");
}

#[test]
fn set_read_buffer_capacity_reaches_pending_payload() {
    let req = build_request(
        vec![],
        "/",
        vec![],
        default_router(),
        Some(Payload::from_chunks(vec![b"x".to_vec()])),
    );
    req.set_read_buffer_capacity(1024);
    let payload = req.take_payload();
    assert_eq!(payload.read_buffer_capacity(), 1024);
    assert_eq!(payload.chunk_count(), 1);
    // once taken, the hint has nothing to reach and changes nothing
    req.set_read_buffer_capacity(99);
    assert!(req.take_payload().is_empty());
}

#[test]
fn accessors_reflect_construction() {
    let req = build_request(
        vec![("host", "h.example")],
        "/a/b?x=1",
        vec![],
        default_router(),
        None,
    );
    assert_eq!(req.method(), "GET");
    assert_eq!(req.version(), Version::Http11);
    assert_eq!(req.uri(), "/a/b?x=1");
    assert_eq!(req.path(), "/a/b");
    assert_eq!(req.query_string(), "x=1");
    assert!(req.peer_addr().is_none());
    assert!(req.resource().is_none());
    let () = *req.state();
}

#[test]
fn debug_dump_lists_fields() {
    let req = build_request(
        vec![("content-type", "text/plain")],
        "/value/?id=test",
        vec![("key", "value")],
        default_router(),
        None,
    );
    let dbg = req.debug_dump();
    assert!(dbg.contains("HTTP/1.1"));
    assert!(dbg.contains("GET:/value/"));
    assert!(dbg.contains("query: ?id=test"));
    assert!(dbg.contains("key: value"));
    assert!(dbg.contains("content-type: text/plain"));
}
