//! The server's own route table and the path of a request through it:
//! access log, dispatch, handler, and the conversion of a failure into a
//! response.

use routerify::RouteParams;
use vstd::prelude::*;

use crate::context::Env;
use crate::error::{error_handler, error_response, ServerError, ServerErrorView};
use crate::handlers::{
    access_line, greeting, home_handler, home_page, logger, state_report, user_handler,
    user_handler_2, user_id_param,
};
use crate::headers::{framing_headers, lemma_forwarded_headers};
use crate::params::param_entries;
use crate::pattern::{
    lemma_pattern_of_joined, path_segments, pattern_of, segment_of, PatternError, PatternView,
    SegmentView,
};
use crate::proxy::{
    lemma_target_keeps_path_and_query, proxy_handler, rewrite_outcome, rewritten, OutboundRequest,
    OutboundRequestView,
};
use crate::request::{Method, Request, RequestView, Response, ResponseView};
use crate::router::{
    lemma_dispatch_total, lemma_first_match_unique, lemma_unmatched_request_falls_back, Handler,
    RouteTable, RouteTableView, RouteView,
};
use crate::text::join_slash;

verus! {

/// The pattern of the root route.
pub open spec fn home_pattern() -> PatternView {
    PatternView { segments: Seq::empty(), wildcard: false }
}

/// The pattern of the route that greets a user.
pub open spec fn user_pattern() -> PatternView {
    PatternView {
        segments: seq![SegmentView::Literal("users"@), SegmentView::Param("userId"@)],
        wildcard: false,
    }
}

/// The pattern of the route that reports the state.
pub open spec fn user_test_pattern() -> PatternView {
    PatternView {
        segments: seq![
            SegmentView::Literal("users"@),
            SegmentView::Param("userId"@),
            SegmentView::Literal("test"@),
        ],
        wildcard: false,
    }
}

/// The server's routes: three local routes for `GET`, and the proxy for
/// every other request, whatever its method and path.
pub open spec fn server_routes() -> RouteTableView {
    RouteTableView {
        routes: seq![
            RouteView { method: Method::Get, pattern: home_pattern(), handler: Handler::Home },
            RouteView { method: Method::Get, pattern: user_pattern(), handler: Handler::User },
            RouteView {
                method: Method::Get,
                pattern: user_test_pattern(),
                handler: Handler::UserTest,
            },
        ],
        fallback: Handler::Proxy,
    }
}

/// `/` is the text of the root pattern.
pub proof fn lemma_home_text()
    ensures
        pattern_of("/"@) == Ok::<PatternView, PatternError>(home_pattern()),
{
    reveal_strlit("/");
    let text = "/"@;
    assert(text.skip(1) =~= Seq::<char>::empty());
    let pieces = path_segments(text)->0;
    assert(pieces =~= Seq::<Seq<char>>::empty());
    let parsed = pattern_of(text);
    assert(parsed is Ok);
    assert(parsed->Ok_0.segments =~= Seq::<SegmentView>::empty());
}

/// `/users/:userId` is the text of the pattern that greets a user.
pub proof fn lemma_user_text()
    ensures
        pattern_of("/users/:userId"@) == Ok::<PatternView, PatternError>(user_pattern()),
{
    reveal_strlit("/users/:userId");
    reveal_strlit("users");
    reveal_strlit(":userId");
    reveal_strlit("userId");
    let pieces = seq!["users"@, ":userId"@];
    assert(pieces.drop_last() =~= seq!["users"@]);
    assert(join_slash(pieces.drop_last()) == "users"@);
    assert("/users/:userId"@ =~= seq!['/'] + join_slash(pieces));
    assert(":userId"@.skip(1) =~= "userId"@);
    lemma_pattern_of_joined(pieces);
    assert(Seq::new(pieces.len(), |i: int| segment_of(pieces[i])) =~= user_pattern().segments);
}

/// `/users/:userId/test` is the text of the pattern that reports the state.
pub proof fn lemma_user_test_text()
    ensures
        pattern_of("/users/:userId/test"@) == Ok::<PatternView, PatternError>(
            user_test_pattern(),
        ),
{
    reveal_strlit("/users/:userId/test");
    reveal_strlit("users");
    reveal_strlit(":userId");
    reveal_strlit("userId");
    reveal_strlit("test");
    let pieces = seq!["users"@, ":userId"@, "test"@];
    let two = pieces.drop_last();
    assert(two =~= seq!["users"@, ":userId"@]);
    assert(two.drop_last() =~= seq!["users"@]);
    assert(join_slash(two.drop_last()) == "users"@);
    assert(join_slash(two) =~= "users"@ + seq!['/'] + ":userId"@);
    assert("/users/:userId/test"@ =~= seq!['/'] + join_slash(pieces));
    assert(":userId"@.skip(1) =~= "userId"@);
    lemma_pattern_of_joined(pieces);
    assert(Seq::new(pieces.len(), |i: int| segment_of(pieces[i])) =~= user_test_pattern().segments);
}

/// No two routes of the server take the same request: a request that a
/// local route takes is dispatched to that very route and its handler, which
/// is never the proxy.
pub proof fn lemma_local_route_dispatch(method: Method, path: Seq<char>, index: int)
    requires
        0 <= index < server_routes().routes.len(),
        server_routes().routes[index].takes(method, path),
    ensures
        server_routes().dispatch(method, path).route == Some(index),
        server_routes().dispatch(method, path).handler == server_routes().routes[index].handler,
        server_routes().dispatch(method, path).handler != Handler::Proxy,
{
    let table = server_routes();
    assert(table.is_first_match(method, path, index));
    lemma_first_match_unique(table, method, path, index);
}

/// A request that none of the server's local routes takes reaches the proxy,
/// whatever its method and its path.
pub proof fn lemma_other_requests_reach_proxy(method: Method, path: Seq<char>)
    requires
        forall|i: int|
            0 <= i < server_routes().routes.len() ==> !(#[trigger] server_routes().routes[i]).takes(
                method,
                path,
            ),
    ensures
        server_routes().dispatch(method, path).handler == Handler::Proxy,
        server_routes().dispatch(method, path).route is None,
{
    lemma_unmatched_request_falls_back(server_routes(), method, path);
}

/// The server sends a request to the proxy exactly when no local route
/// takes it.
pub proof fn lemma_proxy_iff_unmatched(method: Method, path: Seq<char>)
    ensures
        server_routes().dispatch(method, path).handler == Handler::Proxy <==> forall|i: int|
            0 <= i < server_routes().routes.len() ==> !(#[trigger] server_routes().routes[i]).takes(
                method,
                path,
            ),
{
    lemma_dispatch_total(server_routes(), method, path);
}

/// Both user routes bind `userId` to the second segment of the path, so
/// that in the server the user handler always finds its parameter.
pub proof fn lemma_user_routes_bind_user_id(method: Method, path: Seq<char>)
    requires
        server_routes().dispatch(method, path).handler == Handler::User || server_routes().dispatch(
            method,
            path,
        ).handler == Handler::UserTest,
    ensures
        path_segments(path) is Some,
        path_segments(path)->0.len() >= 2,
        server_routes().dispatch(method, path).params.dom().contains(user_id_param()),
        server_routes().dispatch(method, path).params[user_id_param()] == path_segments(path)->0[1],
{
    let table = server_routes();
    lemma_dispatch_total(table, method, path);
    reveal_with_fuel(PatternView::bound, 4);
}

/// Builds the server's route table.
pub fn router() -> (table: RouteTable)
    ensures
        table@ == server_routes(),
{
    let mut table = RouteTable::new(Handler::Proxy);
    proof {
        lemma_home_text();
        lemma_user_text();
        lemma_user_test_text();
    }
    let registered = table.register(Method::Get, "/", Handler::Home);
    assert(registered is Ok);
    let registered = table.register(Method::Get, "/users/:userId", Handler::User);
    assert(registered is Ok);
    let registered = table.register(Method::Get, "/users/:userId/test", Handler::UserTest);
    assert(registered is Ok);
    assert(table@.routes =~= server_routes().routes);
    table
}

/// What the server does about a request: answer it itself, or send the
/// rewritten request to the upstream and relay what comes back.
#[derive(Debug)]
pub enum Action {
    Respond(Response),
    Forward(OutboundRequest),
}

/// The mathematical content of an [`Action`].
pub enum ActionView {
    Respond(ResponseView),
    Forward(OutboundRequestView),
}

impl View for Action {
    type V = ActionView;

    open spec fn view(&self) -> ActionView {
        match self {
            Action::Respond(response) => ActionView::Respond(response@),
            Action::Forward(outbound) => ActionView::Forward(outbound@),
        }
    }
}

/// What `handler` makes of a request with the parameters `params`, under a
/// context with the origin `origin` and the state value `state`.
pub open spec fn handler_outcome(
    handler: Handler,
    origin: Seq<char>,
    state: u64,
    request: RequestView,
    params: Map<Seq<char>, Seq<char>>,
) -> Result<ActionView, ServerErrorView> {
    match handler {
        Handler::Home => Ok(ActionView::Respond(home_page())),
        Handler::User => if params.dom().contains(user_id_param()) {
            Ok(ActionView::Respond(greeting(params[user_id_param()])))
        } else {
            Err(ServerErrorView::MissingParam(user_id_param()))
        },
        Handler::UserTest => Ok(ActionView::Respond(state_report(state))),
        Handler::Proxy => match rewrite_outcome(origin, request) {
            Ok(outbound) => Ok(ActionView::Forward(outbound)),
            Err(error) => Err(error),
        },
    }
}

/// What the server does about a request whose handler ended in `outcome`:
/// a failure becomes the response that reports it.
pub open spec fn settled(outcome: Result<ActionView, ServerErrorView>) -> ActionView {
    match outcome {
        Ok(action) => action,
        Err(error) => ActionView::Respond(error_response(error)),
    }
}

/// Runs `handler` on a request.
pub fn run_handler(handler: Handler, env: &Env, request: Request, params: &RouteParams) -> (out:
    Result<Action, ServerError>)
    ensures
        match out {
            Ok(action) => handler_outcome(
                handler,
                env.origin@,
                env.state.0,
                request@,
                param_entries(*params),
            ) == Ok::<ActionView, ServerErrorView>(action@),
            Err(error) => handler_outcome(
                handler,
                env.origin@,
                env.state.0,
                request@,
                param_entries(*params),
            ) == Err::<ActionView, ServerErrorView>(error@),
        },
{
    match handler {
        Handler::Home => Ok(Action::Respond(home_handler())),
        Handler::User => match user_handler(params) {
            Ok(response) => Ok(Action::Respond(response)),
            Err(error) => Err(error),
        },
        Handler::UserTest => Ok(Action::Respond(user_handler_2(env))),
        Handler::Proxy => match proxy_handler(env, request) {
            Ok(outbound) => Ok(Action::Forward(outbound)),
            Err(error) => Err(error),
        },
    }
}

/// What the server does about a request: it runs the handler that the
/// table dispatches to and settles a failure into a response.
pub open spec fn served_action(
    table: RouteTableView,
    origin: Seq<char>,
    state: u64,
    request: RequestView,
) -> ActionView {
    let found = table.dispatch(request.method, request.path);
    settled(handler_outcome(found.handler, origin, state, request, found.params))
}

/// A request that one of the server's local routes takes is answered by the
/// server itself with status 200: the root route with the home page, the
/// user route with the greeting for the second segment of the path, and the
/// test route with the report of the state.
pub proof fn lemma_local_requests_answered(
    origin: Seq<char>,
    state: u64,
    request: RequestView,
    index: int,
)
    requires
        0 <= index < server_routes().routes.len(),
        server_routes().routes[index].takes(request.method, request.path),
    ensures
        served_action(server_routes(), origin, state, request) == ActionView::Respond(
            if index == 0 {
                home_page()
            } else if index == 1 {
                greeting(path_segments(request.path)->0[1])
            } else {
                state_report(state)
            },
        ),
{
    lemma_local_route_dispatch(request.method, request.path, index);
    if index > 0 {
        lemma_user_routes_bind_user_id(request.method, request.path);
    }
}

/// A request that none of the server's local routes takes is forwarded: the
/// server hands out the rewritten request, or reports why the target could
/// not be built.
pub proof fn lemma_other_requests_forwarded(origin: Seq<char>, state: u64, request: RequestView)
    requires
        forall|i: int|
            0 <= i < server_routes().routes.len() ==> !(#[trigger] server_routes().routes[i]).takes(
                request.method,
                request.path,
            ),
    ensures
        served_action(server_routes(), origin, state, request) == (match rewrite_outcome(
            origin,
            request,
        ) {
            Ok(outbound) => ActionView::Forward(outbound),
            Err(error) => ActionView::Respond(error_response(error)),
        }),
{
    lemma_other_requests_reach_proxy(request.method, request.path);
}

/// Whatever the table, a request that the server forwards goes out as the
/// rewrite of the inbound request: with the same method, to the origin
/// followed by the inbound path and query unchanged, without any framing
/// header and with every other header as it came in.
pub proof fn lemma_forwarded_requests_are_rewrites(
    table: RouteTableView,
    origin: Seq<char>,
    state: u64,
    request: RequestView,
    name: Seq<char>,
)
    requires
        served_action(table, origin, state, request) is Forward,
    ensures
        table.dispatch(request.method, request.path).handler == Handler::Proxy,
        served_action(table, origin, state, request) == ActionView::Forward(
            rewritten(origin, request),
        ),
        rewritten(origin, request).method == request.method,
        origin.is_prefix_of(rewritten(origin, request).uri),
        rewritten(origin, request).uri.skip(origin.len() as int) == match request.query {
            None => request.path,
            Some(query) => request.path + seq!['?'] + query,
        },
        framing_headers().contains(name) ==> !rewritten(origin, request).headers.dom().contains(
            name,
        ),
        !framing_headers().contains(name) ==> (rewritten(origin, request).headers.dom().contains(
            name,
        ) <==> request.headers.dom().contains(name)),
        !framing_headers().contains(name) && request.headers.dom().contains(name) ==> rewritten(
            origin,
            request,
        ).headers[name] == request.headers[name],
{
    lemma_target_keeps_path_and_query(origin, request.path, request.query);
    lemma_forwarded_headers(request.headers, name);
}

/// What became of a request: the line for the access log, when logging is
/// on, and what the server does about the request.
#[derive(Debug)]
pub struct Served {
    pub log_line: Option<String>,
    pub action: Action,
}

/// Takes a request through the server: the access log first, then dispatch
/// by the table, then the handler; a failure on the way becomes the
/// response that reports it, so that the caller is always answered.
pub fn serve(env: &Env, table: &RouteTable, verbose: bool, request: Request) -> (served: Served)
    ensures
        match served.log_line {
            Some(line) => verbose && line@ == access_line(request@),
            None => !verbose,
        },
        served.action@ == served_action(table@, env.origin@, env.state.0, request@),
{
    let log_line = if verbose {
        Some(logger(&request))
    } else {
        None
    };
    let found = table.dispatch(request.method, request.path.as_str());
    let action = match run_handler(found.handler, env, request, &found.params) {
        Ok(action) => action,
        Err(error) => Action::Respond(error_handler(&error)),
    };
    Served { log_line, action }
}

/// Settles what came back from the upstream: an answer is relayed as it is,
/// and a failure to get one becomes the error that names the cause.
pub fn upstream_outcome<T>(outcome: Result<T, String>) -> (relayed: Result<T, ServerError>)
    ensures
        match relayed {
            Ok(answer) => outcome == Ok::<T, String>(answer),
            Err(error) => outcome is Err && error@ == ServerErrorView::Upstream(
                outcome->Err_0@,
            ),
        },
{
    match outcome {
        Ok(answer) => Ok(answer),
        Err(cause) => Err(ServerError::Upstream(cause)),
    }
}

} // verus!
