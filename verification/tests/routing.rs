use edge_proxy::pattern::PatternError;
use edge_proxy::request::Method;
use edge_proxy::router::{Handler, RouteTable};
use edge_proxy::server::router;

const ALL_METHODS: [Method; 9] = [
    Method::Get,
    Method::Post,
    Method::Put,
    Method::Patch,
    Method::Delete,
    Method::Connect,
    Method::Head,
    Method::Options,
    Method::Trace,
];

#[test]
fn empty_table_sends_everything_to_the_fallback() {
    let table = RouteTable::new(Handler::Proxy);
    for path in ["/", "/a", "", "*", "/a/b/c"] {
        let found = table.dispatch(Method::Get, path);
        assert_eq!(found.route, None);
        assert_eq!(found.handler, Handler::Proxy);
        assert!(found.params.is_empty());
    }
}

#[test]
fn fallback_is_the_handler_given_at_construction() {
    let table = RouteTable::new(Handler::Home);
    assert_eq!(table.fallback, Handler::Home);
    assert_eq!(table.dispatch(Method::Post, "/x").handler, Handler::Home);
}

#[test]
fn register_appends_in_order() {
    let mut table = RouteTable::new(Handler::Proxy);
    assert_eq!(table.register(Method::Get, "/a", Handler::Home), Ok(()));
    assert_eq!(table.register(Method::Post, "/b/:id", Handler::User), Ok(()));
    assert_eq!(table.routes.len(), 2);
    assert_eq!(table.routes[0].method, Method::Get);
    assert_eq!(table.routes[0].handler, Handler::Home);
    assert_eq!(table.routes[1].method, Method::Post);
    assert_eq!(table.routes[1].handler, Handler::User);
    assert_eq!(table.fallback, Handler::Proxy);
}

#[test]
fn register_refuses_a_bad_pattern_and_changes_nothing() {
    let mut table = RouteTable::new(Handler::Proxy);
    table.register(Method::Get, "/a", Handler::Home).unwrap();
    let before = table.clone();
    assert_eq!(
        table.register(Method::Get, "users", Handler::User),
        Err(PatternError::MissingLeadingSlash)
    );
    assert_eq!(
        table.register(Method::Get, "/a//b", Handler::User),
        Err(PatternError::EmptySegment)
    );
    assert_eq!(table.register(Method::Get, "/:", Handler::User), Err(PatternError::EmptyParamName));
    assert_eq!(
        table.register(Method::Get, "/*/a", Handler::User),
        Err(PatternError::MisplacedWildcard)
    );
    assert_eq!(table, before);
}

#[test]
fn first_registered_route_wins() {
    let mut table = RouteTable::new(Handler::Proxy);
    table.register(Method::Get, "/users/:id", Handler::User).unwrap();
    table.register(Method::Get, "/users/me", Handler::Home).unwrap();
    table.register(Method::Get, "/users/*", Handler::UserTest).unwrap();
    let found = table.dispatch(Method::Get, "/users/me");
    assert_eq!(found.route, Some(0));
    assert_eq!(found.handler, Handler::User);
    assert_eq!(found.params.get("id"), Some(&"me".to_string()));
}

#[test]
fn specific_route_before_wildcard_takes_precedence() {
    let mut table = RouteTable::new(Handler::Proxy);
    table.register(Method::Get, "/users/me", Handler::Home).unwrap();
    table.register(Method::Get, "/users/*", Handler::UserTest).unwrap();
    assert_eq!(table.dispatch(Method::Get, "/users/me").route, Some(0));
    let other = table.dispatch(Method::Get, "/users/you/books");
    assert_eq!(other.route, Some(1));
    assert_eq!(other.handler, Handler::UserTest);
    assert_eq!(other.params.get("*"), Some(&"you/books".to_string()));
}

#[test]
fn route_takes_only_its_own_method() {
    let mut table = RouteTable::new(Handler::Proxy);
    table.register(Method::Post, "/submit", Handler::Home).unwrap();
    for method in ALL_METHODS {
        let found = table.dispatch(method, "/submit");
        if method == Method::Post {
            assert_eq!(found.handler, Handler::Home);
            assert_eq!(found.route, Some(0));
        } else {
            assert_eq!(found.handler, Handler::Proxy);
            assert_eq!(found.route, None);
        }
    }
}

#[test]
fn same_pattern_under_two_methods() {
    let mut table = RouteTable::new(Handler::Proxy);
    table.register(Method::Get, "/item/:id", Handler::User).unwrap();
    table.register(Method::Delete, "/item/:id", Handler::UserTest).unwrap();
    assert_eq!(table.dispatch(Method::Get, "/item/7").route, Some(0));
    assert_eq!(table.dispatch(Method::Delete, "/item/7").route, Some(1));
    assert_eq!(table.dispatch(Method::Put, "/item/7").route, None);
}

#[test]
fn server_table_has_three_local_routes_and_the_proxy() {
    let table = router();
    assert_eq!(table.routes.len(), 3);
    assert_eq!(table.fallback, Handler::Proxy);
    let mut expected = RouteTable::new(Handler::Proxy);
    expected.register(Method::Get, "/", Handler::Home).unwrap();
    expected.register(Method::Get, "/users/:userId", Handler::User).unwrap();
    expected.register(Method::Get, "/users/:userId/test", Handler::UserTest).unwrap();
    assert_eq!(table, expected);
}

#[test]
fn local_routes_reach_their_handlers_not_the_proxy() {
    let table = router();
    let home = table.dispatch(Method::Get, "/");
    assert_eq!((home.route, home.handler), (Some(0), Handler::Home));
    let user = table.dispatch(Method::Get, "/users/42");
    assert_eq!((user.route, user.handler), (Some(1), Handler::User));
    let test = table.dispatch(Method::Get, "/users/42/test");
    assert_eq!((test.route, test.handler), (Some(2), Handler::UserTest));
}

#[test]
fn user_routes_bind_the_user_id() {
    let table = router();
    let user = table.dispatch(Method::Get, "/users/42");
    assert_eq!(user.params.len(), 1);
    assert_eq!(user.params.get("userId"), Some(&"42".to_string()));
    let test = table.dispatch(Method::Get, "/users/alice/test");
    assert_eq!(test.params.get("userId"), Some(&"alice".to_string()));
    let home = table.dispatch(Method::Get, "/");
    assert!(home.params.is_empty());
}

#[test]
fn trailing_slash_does_not_change_the_route() {
    let table = router();
    assert_eq!(table.dispatch(Method::Get, "/users/42/").handler, Handler::User);
    assert_eq!(table.dispatch(Method::Get, "/users/42/test/").handler, Handler::UserTest);
}

#[test]
fn unmatched_paths_reach_the_proxy() {
    let table = router();
    for path in [
        "/anything/else",
        "/users",
        "/users/",
        "/users//test",
        "/users/42/other",
        "/users/42/test/more",
        "/Users/42",
        "//",
        "",
        "*",
        "users/42",
        "/uuid",
    ] {
        let found = table.dispatch(Method::Get, path);
        assert_eq!(found.handler, Handler::Proxy, "path {:?}", path);
        assert_eq!(found.route, None);
        assert!(found.params.is_empty());
    }
}

#[test]
fn other_methods_reach_the_proxy_on_every_path() {
    let table = router();
    for method in ALL_METHODS {
        if method == Method::Get {
            continue;
        }
        for path in ["/", "/users/42", "/users/42/test", "/anything"] {
            let found = table.dispatch(method, path);
            assert_eq!(found.handler, Handler::Proxy);
            assert_eq!(found.route, None);
        }
    }
}

#[test]
fn path_segments_may_hold_any_characters() {
    let table = router();
    let found = table.dispatch(Method::Get, "/users/жук");
    assert_eq!(found.handler, Handler::User);
    assert_eq!(found.params.get("userId"), Some(&"жук".to_string()));
    let spaced = table.dispatch(Method::Get, "/users/a b:c*");
    assert_eq!(spaced.params.get("userId"), Some(&"a b:c*".to_string()));
}

#[test]
fn method_names_are_the_request_line_tokens() {
    let names: Vec<&str> = ALL_METHODS.iter().map(|m| m.as_str()).collect();
    assert_eq!(
        names,
        vec!["GET", "POST", "PUT", "PATCH", "DELETE", "CONNECT", "HEAD", "OPTIONS", "TRACE"]
    );
}
