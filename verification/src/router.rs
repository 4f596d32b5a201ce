//! The route table: routes tried in the order of their registration, and a
//! fallback handler for every request that none of them takes.

use routerify::RouteParams;
use vstd::prelude::*;

use crate::params::{new_params, no_params, param_entries};
use crate::pattern::{
    parse_pattern, path_segments, pattern_of, segments_of, Pattern, PatternError, PatternView,
};
use crate::request::Method;
use crate::text::text_of;

verus! {

/// The handlers of the server.
#[derive(Clone, Copy, Debug, PartialEq, Eq, Structural)]
pub enum Handler {
    /// Answers the root path with a fixed text.
    Home,
    /// Greets the user named in the path.
    User,
    /// Reports the server's state value.
    UserTest,
    /// Forwards the request to the upstream origin.
    Proxy,
}

/// A binding of a method and a pattern to a handler.
#[derive(Clone, Debug, PartialEq, Eq)]
pub struct Route {
    pub method: Method,
    pub pattern: Pattern,
    pub handler: Handler,
}

/// The mathematical content of a [`Route`].
pub struct RouteView {
    pub method: Method,
    pub pattern: PatternView,
    pub handler: Handler,
}

impl View for Route {
    type V = RouteView;

    open spec fn view(&self) -> RouteView {
        RouteView { method: self.method, pattern: self.pattern@, handler: self.handler }
    }
}

impl RouteView {
    /// Whether the route takes a request: the method is the route's, and
    /// the path has segments that the pattern matches.
    pub open spec fn takes(self, method: Method, path: Seq<char>) -> bool {
        &&& self.method == method
        &&& path_segments(path) matches Some(segments)
        &&& self.pattern.matches(segments)
    }
}

/// The routes in the order of their registration, and the handler of the
/// requests that no route takes.
#[derive(Clone, Debug, PartialEq, Eq)]
pub struct RouteTable {
    pub routes: Vec<Route>,
    pub fallback: Handler,
}

/// The mathematical content of a [`RouteTable`].
pub struct RouteTableView {
    pub routes: Seq<RouteView>,
    pub fallback: Handler,
}

impl View for RouteTable {
    type V = RouteTableView;

    open spec fn view(&self) -> RouteTableView {
        RouteTableView {
            routes: Seq::new(self.routes.len() as nat, |i: int| self.routes[i]@),
            fallback: self.fallback,
        }
    }
}

/// Where a request goes: the route that took it, if one did, the handler
/// that answers it, and the parameters extracted from its path.
#[derive(Debug)]
pub struct Dispatch {
    pub route: Option<usize>,
    pub handler: Handler,
    pub params: RouteParams,
}

/// The mathematical content of a [`Dispatch`].
pub struct DispatchView {
    pub route: Option<int>,
    pub handler: Handler,
    pub params: Map<Seq<char>, Seq<char>>,
}

impl View for Dispatch {
    type V = DispatchView;

    open spec fn view(&self) -> DispatchView {
        DispatchView {
            route: match self.route {
                Some(index) => Some(index as int),
                None => None,
            },
            handler: self.handler,
            params: param_entries(self.params),
        }
    }
}

impl RouteTableView {
    /// Whether route `index` takes the request and no earlier route does.
    pub open spec fn is_first_match(self, method: Method, path: Seq<char>, index: int) -> bool {
        &&& 0 <= index < self.routes.len()
        &&& self.routes[index].takes(method, path)
        &&& forall|j: int| 0 <= j < index ==> !(#[trigger] self.routes[j]).takes(method, path)
    }

    /// The first route that takes the request, if any does.
    pub open spec fn first_match(self, method: Method, path: Seq<char>) -> Option<int> {
        if exists|i: int| self.is_first_match(method, path, i) {
            Some(choose|i: int| self.is_first_match(method, path, i))
        } else {
            None
        }
    }

    /// Where the table sends a request: to the first route that takes it,
    /// with the parameters of that match, and to the fallback, without
    /// parameters, when no route takes it.
    pub open spec fn dispatch(self, method: Method, path: Seq<char>) -> DispatchView {
        match self.first_match(method, path) {
            Some(index) => DispatchView {
                route: Some(index),
                handler: self.routes[index].handler,
                params: self.routes[index].pattern.bindings(path_segments(path)->0),
            },
            None => DispatchView { route: None, handler: self.fallback, params: no_params() },
        }
    }

    /// The table with one more route behind those it has.
    pub open spec fn with_route(self, route: RouteView) -> RouteTableView {
        RouteTableView { routes: self.routes.push(route), fallback: self.fallback }
    }
}

/// At most one index is the first match of a request.
pub proof fn lemma_first_match_unique(
    table: RouteTableView,
    method: Method,
    path: Seq<char>,
    index: int,
)
    requires
        table.is_first_match(method, path, index),
    ensures
        table.first_match(method, path) == Some(index),
{
    let chosen = choose|i: int| table.is_first_match(method, path, i);
    assert(table.is_first_match(method, path, chosen));
    if chosen < index {
        assert(!table.routes[chosen].takes(method, path));
    } else if chosen > index {
        assert(!table.routes[index].takes(method, path));
    }
}

/// Among the routes up to `index`, one of which takes the request, there is
/// a first that does.
proof fn lemma_first_match_exists(
    table: RouteTableView,
    method: Method,
    path: Seq<char>,
    index: int,
) -> (first: int)
    requires
        0 <= index < table.routes.len(),
        table.routes[index].takes(method, path),
    ensures
        first <= index,
        table.is_first_match(method, path, first),
    decreases index,
{
    if exists|j: int| 0 <= j < index && (#[trigger] table.routes[j]).takes(method, path) {
        let j = choose|j: int| 0 <= j < index && (#[trigger] table.routes[j]).takes(method, path);
        lemma_first_match_exists(table, method, path, j)
    } else {
        index
    }
}

/// A request that some registered route takes is dispatched to a registered
/// route, the first one that takes it, and never to the fallback.
pub proof fn lemma_matched_request_stays_local(
    table: RouteTableView,
    method: Method,
    path: Seq<char>,
    index: int,
)
    requires
        0 <= index < table.routes.len(),
        table.routes[index].takes(method, path),
    ensures
        table.dispatch(method, path).route matches Some(first) && first <= index
            && table.is_first_match(method, path, first) && table.dispatch(method, path).handler
            == table.routes[first].handler,
{
    let first = lemma_first_match_exists(table, method, path, index);
    lemma_first_match_unique(table, method, path, first);
}

/// A request that no registered route takes goes to the fallback, whatever
/// its method and its path, and carries no parameters.
pub proof fn lemma_unmatched_request_falls_back(
    table: RouteTableView,
    method: Method,
    path: Seq<char>,
)
    requires
        forall|i: int|
            0 <= i < table.routes.len() ==> !(#[trigger] table.routes[i]).takes(method, path),
    ensures
        table.dispatch(method, path) == (DispatchView {
            route: None,
            handler: table.fallback,
            params: no_params(),
        }),
{
}

/// Every request is dispatched to exactly one handler: to the fallback
/// when no route was found for it, and to a registered route's otherwise.
pub proof fn lemma_dispatch_total(table: RouteTableView, method: Method, path: Seq<char>)
    ensures
        match table.dispatch(method, path).route {
            Some(index) => table.is_first_match(method, path, index) && table.dispatch(
                method,
                path,
            ).handler == table.routes[index].handler,
            None => table.dispatch(method, path).handler == table.fallback && forall|i: int|
                0 <= i < table.routes.len() ==> !(#[trigger] table.routes[i]).takes(
                    method,
                    path,
                ),
        },
{
    if table.first_match(method, path) is None {
        assert forall|i: int| 0 <= i < table.routes.len() implies !(
        #[trigger] table.routes[i]).takes(method, path) by {
            if table.routes[i].takes(method, path) {
                let first = lemma_first_match_exists(table, method, path, i);
            }
        }
    }
}

impl RouteTable {
    /// A table without routes: every request goes to `fallback`.
    pub fn new(fallback: Handler) -> (table: RouteTable)
        ensures
            table@ == (RouteTableView { routes: Seq::empty(), fallback }),
    {
        let table = RouteTable { routes: Vec::new(), fallback };
        assert(table@.routes =~= Seq::empty());
        table
    }

    /// Adds a route behind those already registered. A pattern that cannot
    /// be read leaves the table as it was.
    pub fn register(&mut self, method: Method, pattern: &str, handler: Handler) -> (outcome:
        Result<(), PatternError>)
        ensures
            match outcome {
                Ok(_) => pattern_of(pattern@) is Ok && final(self)@ == old(self)@.with_route(
                    RouteView { method, pattern: pattern_of(pattern@)->Ok_0, handler },
                ),
                Err(error) => pattern_of(pattern@) == Err::<PatternView, PatternError>(error)
                    && final(self)@ == old(self)@,
            },
    {
        match parse_pattern(pattern) {
            Ok(parsed) => {
                let ghost before = self@;
                let ghost route = RouteView { method, pattern: parsed@, handler };
                self.routes.push(Route { method, pattern: parsed, handler });
                assert(self@.routes =~= before.routes.push(route));
                Ok(())
            },
            Err(error) => Err(error),
        }
    }

    /// Finds the handler of a request and extracts its path parameters.
    pub fn dispatch(&self, method: Method, path: &str) -> (found: Dispatch)
        ensures
            found@ == self@.dispatch(method, path@),
    {
        match segments_of(path) {
            Some(segments) => {
                let n = self.routes.len();
                let mut i: usize = 0;
                while i < n
                    invariant
                        n == self.routes.len(),
                        i <= n,
                        path_segments(path@) == Some(text_of(segments@)),
                        forall|j: int|
                            0 <= j < i ==> !(#[trigger] self@.routes[j]).takes(method, path@),
                    decreases n - i,
                {
                    let route = &self.routes[i];
                    if route.method == method {
                        match route.pattern.capture(&segments) {
                            Some(params) => {
                                proof {
                                    assert(self@.routes[i as int].takes(method, path@));
                                    lemma_first_match_unique(self@, method, path@, i as int);
                                }
                                return Dispatch { route: Some(i), handler: route.handler, params };
                            },
                            None => {},
                        }
                    }
                    assert(!self@.routes[i as int].takes(method, path@));
                    i += 1;
                }
            },
            None => {},
        }
        assert(forall|j: int|
            0 <= j < self@.routes.len() ==> !(#[trigger] self@.routes[j]).takes(method, path@));
        Dispatch { route: None, handler: self.fallback, params: new_params() }
    }
}

} // verus!
