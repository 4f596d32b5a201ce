//! Routing, request rewriting and error mapping for a small HTTP edge server
//! that answers a few local routes itself and forwards everything else to one
//! fixed upstream origin.
//!
//! A request passes through [`server::serve`]: the access-log line is made,
//! the [`router::RouteTable`] picks the handler, and the handler either
//! answers or, for the proxy, hands out the request for the upstream. A
//! failure on the way is turned into a response by [`error::error_handler`].
//! The library does no I/O: the caller sends what [`proxy::rewrite_to_proxy`]
//! built and settles the answer with [`server::upstream_outcome`].
//!
//! Header sets stay in hyper's `HeaderMap` and path parameters in routerify's
//! `RouteParams`; what the verifier is told about the two is in [`headers`]
//! and [`params`], and about the URI parser in [`proxy`].

pub mod context;
pub mod error;
pub mod handlers;
pub mod headers;
pub mod params;
pub mod pattern;
pub mod proxy;
pub mod request;
pub mod router;
pub mod server;
pub mod text;
