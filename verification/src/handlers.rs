//! The handlers that answer from local logic, and the access-log line of
//! the step that runs before dispatch.

use routerify::RouteParams;
use vstd::prelude::*;
use vstd::string::StringExecFns;

use crate::context::Env;
use crate::error::{ServerError, ServerErrorView};
use crate::params::{get_param, param_entries};
use crate::request::{Request, RequestView, Response, ResponseView};
use crate::text::{decimal, push_decimal};

verus! {

/// The name of the path parameter that the user routes bind.
pub open spec fn user_id_param() -> Seq<char> {
    "userId"@
}

/// The answer of the root route.
pub open spec fn home_page() -> ResponseView {
    ResponseView { status: 200, body: "Home page"@ }
}

/// The greeting for the user `user_id`.
pub open spec fn greeting(user_id: Seq<char>) -> ResponseView {
    ResponseView { status: 200, body: "Hello "@ + user_id }
}

/// The report of the state value `state`.
pub open spec fn state_report(state: u64) -> ResponseView {
    ResponseView { status: 200, body: "User 2 page! State value: "@ + decimal(state as nat) }
}

/// The line that records a request: peer address, method and path, with one
/// space between them.
pub open spec fn access_line(request: RequestView) -> Seq<char> {
    request.remote_addr + " "@ + request.method.name() + " "@ + request.path
}

/// Answers the root route.
pub fn home_handler() -> (response: Response)
    ensures
        response@ == home_page(),
{
    Response { status: 200, body: String::from_str("Home page") }
}

/// Greets the user that the route's `userId` parameter names. A route that
/// binds no such parameter was set up wrongly, and the handler says so.
pub fn user_handler(params: &RouteParams) -> (out: Result<Response, ServerError>)
    ensures
        match out {
            Ok(response) => param_entries(*params).dom().contains(user_id_param()) && response@
                == greeting(param_entries(*params)[user_id_param()]),
            Err(error) => !param_entries(*params).dom().contains(user_id_param()) && error@
                == ServerErrorView::MissingParam(user_id_param()),
        },
{
    match get_param(params, "userId") {
        Some(user_id) => Ok(
            Response { status: 200, body: String::from_str("Hello ").concat(user_id.as_str()) },
        ),
        None => Err(ServerError::MissingParam(String::from_str("userId"))),
    }
}

/// Reports the state value of the shared context.
pub fn user_handler_2(env: &Env) -> (response: Response)
    ensures
        response@ == state_report(env.state.0),
{
    let mut body = String::from_str("User 2 page! State value: ");
    push_decimal(&mut body, env.state.0);
    Response { status: 200, body }
}

/// The access-log line of `request`. The request itself is only read, so
/// logging cannot change where it is dispatched.
pub fn logger(request: &Request) -> (line: String)
    ensures
        line@ == access_line(request@),
{
    let mut line = request.remote_addr.clone();
    line.append(" ");
    line.append(request.method.as_str());
    line.append(" ");
    line.append(request.path.as_str());
    line
}

} // verus!
