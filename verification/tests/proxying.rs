use edge_proxy::context::{Env, State, PROXY_URL};
use edge_proxy::error::ServerError;
use edge_proxy::headers::strip_framing_headers;
use edge_proxy::proxy::{outbound_request, proxy_handler, proxy_target, rewrite_to_proxy};
use edge_proxy::request::{Method, Request};
use hyper::header::{HeaderName, HeaderValue};
use hyper::{HeaderMap, Uri};

fn request(method: Method, path: &str, query: Option<&str>, headers: HeaderMap) -> Request {
    Request {
        method,
        path: path.to_string(),
        query: query.map(|q| q.to_string()),
        headers,
        remote_addr: "127.0.0.1:50000".to_string(),
    }
}

fn header(map: &mut HeaderMap, name: &str, value: &str) {
    map.append(HeaderName::from_bytes(name.as_bytes()).unwrap(), HeaderValue::from_str(value).unwrap());
}

fn sorted(map: &HeaderMap) -> Vec<(String, Vec<u8>)> {
    let mut all: Vec<(String, Vec<u8>)> =
        map.iter().map(|(n, v)| (n.as_str().to_string(), v.as_bytes().to_vec())).collect();
    all.sort();
    all
}

#[test]
fn target_is_origin_then_path() {
    assert_eq!(proxy_target("https://example.test", "/a/b", None), "https://example.test/a/b");
}

#[test]
fn target_carries_the_query_behind_a_question_mark() {
    assert_eq!(
        proxy_target("https://example.test", "/anything/else", Some("x=1")),
        "https://example.test/anything/else?x=1"
    );
}

#[test]
fn target_keeps_an_empty_query() {
    assert_eq!(proxy_target("https://example.test", "/a", Some("")), "https://example.test/a?");
}

#[test]
fn target_keeps_path_and_query_byte_for_byte() {
    let path = "/a%20b//c/./../d;p=1";
    let query = "x=1&y=%2F&z=a?b&&=";
    let target = proxy_target(PROXY_URL, path, Some(query));
    assert_eq!(target, format!("{}{}?{}", PROXY_URL, path, query));
    assert_eq!(&target[PROXY_URL.len()..], format!("{}?{}", path, query));
}

#[test]
fn default_origin_is_httpbin() {
    assert_eq!(PROXY_URL, "https://httpbin.org");
    let env = Env::new();
    assert_eq!(env.origin, "https://httpbin.org");
    assert_eq!(env.state, State(100));
}

#[test]
fn proxied_request_goes_to_the_same_path_under_the_origin() {
    let mut headers = HeaderMap::new();
    header(&mut headers, "user-agent", "curl/8");
    let out = rewrite_to_proxy(
        "https://example.test",
        request(Method::Get, "/anything/else", Some("x=1"), headers),
    )
    .unwrap();
    assert_eq!(out.uri, "https://example.test/anything/else?x=1");
    assert_eq!(out.method, Method::Get);
    assert_eq!(sorted(&out.headers), vec![("user-agent".to_string(), b"curl/8".to_vec())]);
    let parsed: Uri = out.uri.parse().unwrap();
    assert_eq!(parsed.scheme_str(), Some("https"));
    assert_eq!(parsed.host(), Some("example.test"));
    assert_eq!(parsed.path(), "/anything/else");
    assert_eq!(parsed.query(), Some("x=1"));
}

#[test]
fn proxied_request_keeps_its_method() {
    for method in [Method::Post, Method::Put, Method::Delete, Method::Patch, Method::Head] {
        let out =
            rewrite_to_proxy("https://example.test", request(method, "/x", None, HeaderMap::new()))
                .unwrap();
        assert_eq!(out.method, method);
        assert_eq!(out.uri, "https://example.test/x");
    }
}

#[test]
fn framing_headers_are_removed() {
    let mut headers = HeaderMap::new();
    header(&mut headers, "content-length", "12");
    header(&mut headers, "transfer-encoding", "chunked");
    header(&mut headers, "accept-encoding", "gzip");
    header(&mut headers, "content-encoding", "br");
    strip_framing_headers(&mut headers);
    assert!(headers.is_empty());
}

#[test]
fn framing_headers_are_removed_whatever_their_case() {
    let mut headers = HeaderMap::new();
    header(&mut headers, "Content-Length", "12");
    header(&mut headers, "TRANSFER-ENCODING", "chunked");
    header(&mut headers, "Accept-Encoding", "gzip");
    header(&mut headers, "cOnTeNt-EnCoDiNg", "br");
    header(&mut headers, "X-Kept", "yes");
    strip_framing_headers(&mut headers);
    assert_eq!(sorted(&headers), vec![("x-kept".to_string(), b"yes".to_vec())]);
}

#[test]
fn framing_headers_with_several_values_are_removed_whole() {
    let mut headers = HeaderMap::new();
    header(&mut headers, "accept-encoding", "gzip");
    header(&mut headers, "accept-encoding", "br");
    header(&mut headers, "accept-encoding", "identity");
    header(&mut headers, "accept", "*/*");
    strip_framing_headers(&mut headers);
    assert_eq!(sorted(&headers), vec![("accept".to_string(), b"*/*".to_vec())]);
}

#[test]
fn other_headers_pass_through_unmodified() {
    let mut headers = HeaderMap::new();
    header(&mut headers, "host", "localhost:3000");
    header(&mut headers, "cookie", "a=1");
    header(&mut headers, "cookie", "b=2");
    header(&mut headers, "authorization", "Bearer example");
    header(&mut headers, "content-type", "application/json");
    header(&mut headers, "content-length", "2");
    header(&mut headers, "x-content-length", "7");
    let mut expected = headers.clone();
    expected.remove("content-length");
    let out =
        rewrite_to_proxy("https://example.test", request(Method::Post, "/p", None, headers))
            .unwrap();
    assert_eq!(out.headers, expected);
    assert_eq!(out.headers.len(), 6);
    let cookies: Vec<&[u8]> = out.headers.get_all("cookie").iter().map(|v| v.as_bytes()).collect();
    assert_eq!(cookies, vec![&b"a=1"[..], &b"b=2"[..]]);
    assert_eq!(out.headers.get("host").unwrap(), "localhost:3000");
    assert_eq!(out.headers.get("x-content-length").unwrap(), "7");
}

#[test]
fn request_without_framing_headers_keeps_all_headers() {
    let mut headers = HeaderMap::new();
    header(&mut headers, "host", "h");
    header(&mut headers, "accept", "*/*");
    let expected = headers.clone();
    strip_framing_headers(&mut headers);
    assert_eq!(headers, expected);
}

#[test]
fn header_values_that_are_not_text_pass_through() {
    let mut headers = HeaderMap::new();
    headers.insert("x-bin", HeaderValue::from_bytes(&[0xff, 0x80, 0x20]).unwrap());
    let out =
        rewrite_to_proxy("https://example.test", request(Method::Get, "/", None, headers)).unwrap();
    assert_eq!(out.headers.get("x-bin").unwrap().as_bytes(), &[0xff, 0x80, 0x20]);
}

#[test]
fn target_that_is_no_uri_fails_the_rewrite() {
    let out = rewrite_to_proxy(
        "https://example.test",
        request(Method::Get, "/a b", None, HeaderMap::new()),
    );
    assert_eq!(out.unwrap_err(), ServerError::InvalidUri("invalid uri character".to_string()));
}

#[test]
fn origin_that_is_no_uri_fails_the_rewrite() {
    let out = rewrite_to_proxy("", request(Method::Get, "", None, HeaderMap::new()));
    assert_eq!(out.unwrap_err(), ServerError::InvalidUri("empty string".to_string()));
    let out = rewrite_to_proxy("ht tp://x", request(Method::Get, "/", None, HeaderMap::new()));
    assert!(matches!(out, Err(ServerError::InvalidUri(_))));
}

#[test]
fn rewrite_fails_exactly_where_the_parser_rejects_the_target() {
    for path in ["/", "/a/b", "/a b", "/\u{7f}", "/{x}", "/a\"b", "/ж", "/%zz", "/a#b", ""] {
        let target = format!("https://example.test{}", path);
        let out = rewrite_to_proxy(
            "https://example.test",
            request(Method::Get, path, None, HeaderMap::new()),
        );
        match target.parse::<Uri>() {
            Ok(_) => assert_eq!(out.unwrap().uri, target),
            Err(reason) => {
                assert_eq!(out.unwrap_err(), ServerError::InvalidUri(reason.to_string()))
            },
        }
    }
}

#[test]
fn outbound_request_follows_the_parsers_verdict() {
    let mut headers = HeaderMap::new();
    header(&mut headers, "content-length", "1");
    header(&mut headers, "accept", "*/*");
    let accepted = outbound_request(
        request(Method::Put, "/ignored", None, headers.clone()),
        "https://example.test/x".to_string(),
        Ok(()),
    )
    .unwrap();
    assert_eq!(accepted.method, Method::Put);
    assert_eq!(accepted.uri, "https://example.test/x");
    assert_eq!(sorted(&accepted.headers), vec![("accept".to_string(), b"*/*".to_vec())]);

    let rejected = outbound_request(
        request(Method::Put, "/ignored", None, headers),
        "https://example.test/x".to_string(),
        Err("no good".to_string()),
    );
    assert_eq!(rejected.unwrap_err(), ServerError::InvalidUri("no good".to_string()));
}

#[test]
fn proxy_handler_uses_the_origin_of_the_context() {
    let env = Env { origin: "https://example.test".to_string(), state: State(1) };
    let out =
        proxy_handler(&env, request(Method::Get, "/anything/else", Some("x=1"), HeaderMap::new()))
            .unwrap();
    assert_eq!(out.uri, "https://example.test/anything/else?x=1");
    let out = proxy_handler(&Env::new(), request(Method::Get, "/uuid", None, HeaderMap::new()))
        .unwrap();
    assert_eq!(out.uri, "https://httpbin.org/uuid");
}
