//! The fallback handler: rewrites an inbound request into the request that
//! goes to the upstream origin.

use hyper::header::HeaderValue;
use hyper::HeaderMap;
use hyper::Uri;
use vstd::prelude::*;
use vstd::string::StringExecFns;

use crate::context::Env;
use crate::error::{ServerError, ServerErrorView};
use crate::headers::{forwarded_headers, header_fields, strip_framing_headers};
use crate::request::{Method, Request, RequestView};

verus! {

/// The request that goes to the upstream, without its body: the body of the
/// inbound request is handed on as it is.
#[derive(Debug)]
pub struct OutboundRequest {
    pub method: Method,
    /// The absolute URI of the upstream resource.
    pub uri: String,
    pub headers: HeaderMap<HeaderValue>,
}

/// The mathematical content of an [`OutboundRequest`].
pub struct OutboundRequestView {
    pub method: Method,
    pub uri: Seq<char>,
    pub headers: Map<Seq<char>, Seq<Seq<u8>>>,
}

impl View for OutboundRequest {
    type V = OutboundRequestView;

    open spec fn view(&self) -> OutboundRequestView {
        OutboundRequestView {
            method: self.method,
            uri: self.uri@,
            headers: header_fields(self.headers),
        }
    }
}

/// The URI under `origin` of a request target: the origin, then the path,
/// then `?` and the query when the inbound target has a query.
pub open spec fn proxy_uri(origin: Seq<char>, path: Seq<char>, query: Option<Seq<char>>) -> Seq<
    char,
> {
    match query {
        None => origin + path,
        Some(q) => origin + path + seq!['?'] + q,
    }
}

/// The outbound request for `request` under `origin`: same method, the
/// target moved under the origin, the framing headers stripped.
pub open spec fn rewritten(origin: Seq<char>, request: RequestView) -> OutboundRequestView {
    OutboundRequestView {
        method: request.method,
        uri: proxy_uri(origin, request.path, request.query),
        headers: forwarded_headers(request.headers),
    }
}

/// What the URI parser of the `http` crate holds against `text`: nothing
/// when it accepts the text, and otherwise its reason in words.
pub uninterp spec fn uri_rejection(text: Seq<char>) -> Option<Seq<char>>;

/// `str::parse::<Uri>`, the URI parser of the `http` crate, asked only
/// whether `text` is a URI.
///
/// The parser reads nothing but the text. It returns an error for what it
/// does not accept and never panics; the error's `Display` text is the
/// reason handed on.
#[verifier::external_body]
fn check_uri(text: &str) -> (verdict: Result<(), String>)
    ensures
        match verdict {
            Ok(_) => uri_rejection(text@) is None,
            Err(reason) => uri_rejection(text@) == Some(reason@),
        },
{
    match text.parse::<Uri>() {
        Ok(_) => Ok(()),
        Err(error) => Err(error.to_string()),
    }
}

/// Builds the text of the URI under `origin` for a request target.
pub fn proxy_target(origin: &str, path: &str, query: Option<&str>) -> (uri: String)
    ensures
        uri@ == proxy_uri(origin@, path@, match query {
            Some(q) => Some(q@),
            None => None,
        }),
{
    let mut uri = String::from_str(origin);
    uri.append(path);
    match query {
        None => {},
        Some(q) => {
            proof {
                reveal_strlit("?");
            }
            uri.append("?");
            assert("?"@ =~= seq!['?']);
            uri.append(q);
        },
    }
    uri
}

/// Finishes the rewrite once the parser has given its verdict on the target
/// `uri`: an accepted target gives the outbound request, a rejected one the
/// failure that carries the parser's reason.
pub fn outbound_request(request: Request, uri: String, verdict: Result<(), String>) -> (out:
    Result<OutboundRequest, ServerError>)
    ensures
        match out {
            Ok(outbound) => verdict is Ok && outbound@ == (OutboundRequestView {
                method: request.method,
                uri: uri@,
                headers: forwarded_headers(request@.headers),
            }),
            Err(error) => verdict is Err && error@ == ServerErrorView::InvalidUri(
                verdict->Err_0@,
            ),
        },
{
    match verdict {
        Ok(_) => {
            let mut headers = request.headers;
            strip_framing_headers(&mut headers);
            Ok(OutboundRequest { method: request.method, uri, headers })
        },
        Err(reason) => Err(ServerError::InvalidUri(reason)),
    }
}

/// What the rewrite of `request` for the upstream at `origin` gives: the
/// outbound request when the parser accepts the target, and otherwise the
/// failure with the parser's reason.
pub open spec fn rewrite_outcome(origin: Seq<char>, request: RequestView) -> Result<
    OutboundRequestView,
    ServerErrorView,
> {
    match uri_rejection(proxy_uri(origin, request.path, request.query)) {
        None => Ok(rewritten(origin, request)),
        Some(reason) => Err(ServerErrorView::InvalidUri(reason)),
    }
}

/// Rewrites `request` for the upstream at `origin`.
///
/// The outbound target is the origin followed by the inbound path and query,
/// byte for byte; the method is kept; the framing headers are removed and all
/// other headers pass through. The rewrite fails only when the parser does
/// not accept the target.
pub fn rewrite_to_proxy(origin: &str, request: Request) -> (out: Result<
    OutboundRequest,
    ServerError,
>)
    ensures
        match out {
            Ok(outbound) => rewrite_outcome(origin@, request@) == Ok::<
                OutboundRequestView,
                ServerErrorView,
            >(outbound@),
            Err(error) => rewrite_outcome(origin@, request@) == Err::<
                OutboundRequestView,
                ServerErrorView,
            >(error@),
        },
{
    let uri = match &request.query {
        Some(q) => proxy_target(origin, request.path.as_str(), Some(q.as_str())),
        None => proxy_target(origin, request.path.as_str(), None),
    };
    let verdict = check_uri(uri.as_str());
    outbound_request(request, uri, verdict)
}

/// The handler of the fallback route: rewrites `request` for the origin that
/// the context names. The caller sends the result and relays the answer.
pub fn proxy_handler(env: &Env, request: Request) -> (out: Result<OutboundRequest, ServerError>)
    ensures
        match out {
            Ok(outbound) => rewrite_outcome(env.origin@, request@) == Ok::<
                OutboundRequestView,
                ServerErrorView,
            >(outbound@),
            Err(error) => rewrite_outcome(env.origin@, request@) == Err::<
                OutboundRequestView,
                ServerErrorView,
            >(error@),
        },
{
    rewrite_to_proxy(env.origin.as_str(), request)
}

/// The outbound URI is the origin with the inbound path and query appended
/// unchanged: cutting the origin off the front gives back the path, and the
/// query behind a `?` when there is one.
pub proof fn lemma_target_keeps_path_and_query(
    origin: Seq<char>,
    path: Seq<char>,
    query: Option<Seq<char>>,
)
    ensures
        origin.is_prefix_of(proxy_uri(origin, path, query)),
        proxy_uri(origin, path, query).skip(origin.len() as int) == match query {
            None => path,
            Some(q) => path + seq!['?'] + q,
        },
{
    let uri = proxy_uri(origin, path, query);
    let rest = match query {
        None => path,
        Some(q) => path + seq!['?'] + q,
    };
    assert(uri =~= origin + rest);
    assert(uri.skip(origin.len() as int) =~= rest);
    assert(uri.subrange(0, origin.len() as int) =~= origin);
}

/// Under one origin, different request targets give different outbound
/// URIs: where two paths hold no `?`, equal outbound URIs mean equal paths
/// and equal queries.
pub proof fn lemma_target_determines_path_and_query(
    origin: Seq<char>,
    path: Seq<char>,
    query: Option<Seq<char>>,
    other_path: Seq<char>,
    other_query: Option<Seq<char>>,
)
    requires
        !path.contains('?'),
        !other_path.contains('?'),
        proxy_uri(origin, path, query) == proxy_uri(origin, other_path, other_query),
    ensures
        path == other_path,
        query == other_query,
{
    lemma_target_keeps_path_and_query(origin, path, query);
    lemma_target_keeps_path_and_query(origin, other_path, other_query);
    let rest = proxy_uri(origin, path, query).skip(origin.len() as int);
    if path.len() < other_path.len() {
        assert(rest[path.len() as int] == other_path[path.len() as int]);
        assert(other_path.contains(other_path[path.len() as int]));
        assert(query is Some);
        assert(rest[path.len() as int] == '?');
    } else if other_path.len() < path.len() {
        assert(rest[other_path.len() as int] == path[other_path.len() as int]);
        assert(path.contains(path[other_path.len() as int]));
        assert(other_query is Some);
        assert(rest[other_path.len() as int] == '?');
    } else {
        assert(path =~= rest.take(path.len() as int));
        assert(other_path =~= rest.take(path.len() as int));
        if query is Some && other_query is Some {
            assert(query->0 =~= rest.skip(path.len() as int + 1));
            assert(other_query->0 =~= rest.skip(path.len() as int + 1));
        } else if query is Some {
            assert(rest.len() == path.len() + 1 + query->0.len());
        } else if other_query is Some {
            assert(rest.len() == path.len() + 1 + other_query->0.len());
        }
    }
}

} // verus!
