//! The path parameters of a matched route, kept in routerify's own
//! `RouteParams` so that a handler reads them as it would from a request.

use routerify::RouteParams;
use vstd::prelude::*;

verus! {

/// routerify's `RouteParams`, the map from parameter names to values. The
/// verifier sees nothing inside it; [`param_entries`] names what it holds.
#[verifier::external_type_specification]
#[verifier::external_body]
pub struct ExRouteParams(RouteParams);

/// What a parameter map holds: the value bound to each parameter name.
pub uninterp spec fn param_entries(params: RouteParams) -> Map<Seq<char>, Seq<char>>;

/// The content of a parameter map that binds nothing.
pub open spec fn no_params() -> Map<Seq<char>, Seq<char>> {
    Map::empty()
}

/// `RouteParams::new`: a map without entries.
#[verifier::external_body]
pub(crate) fn new_params() -> (fresh: RouteParams)
    ensures
        param_entries(fresh) == no_params(),
{
    RouteParams::new()
}

/// `RouteParams::set`: binds `value` to `name`, in place of what `name` was
/// bound to before, and leaves the other names alone.
#[verifier::external_body]
pub(crate) fn set_param(params: &mut RouteParams, name: &str, value: &str)
    ensures
        param_entries(*final(params)) == param_entries(*old(params)).insert(name@, value@),
{
    params.set(name, value);
}

/// `RouteParams::get`: the value bound to `name`, if the map binds it.
#[verifier::external_body]
pub(crate) fn get_param<'a>(params: &'a RouteParams, name: &str) -> (value: Option<&'a String>)
    ensures
        match value {
            Some(v) => param_entries(*params).dom().contains(name@) && v@ == param_entries(
                *params,
            )[name@],
            None => !param_entries(*params).dom().contains(name@),
        },
{
    params.get(name)
}

} // verus!
