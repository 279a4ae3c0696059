use vstd::prelude::*;

use crate::text::str_eq;

verus! {

/// The HTTP methods the service tells apart.
#[derive(Debug, Clone, Copy, PartialEq, Eq, Structural)]
pub enum Method {
    Get,
    Post,
    Other,
}

/// Where a request is dispatched.
#[derive(Debug, Clone, Copy, PartialEq, Eq, Structural)]
pub enum Route {
    /// The placeholder root page.
    Root,
    /// The liveness check.
    Health,
    /// The interactive schema explorer page.
    Explorer,
    /// Query execution.
    GraphQL,
    /// A known path with a method it does not serve.
    MethodNotAllowed,
    /// An unknown path.
    NotFound,
}

/// A reply with a fixed status and body.
#[derive(Debug)]
pub struct Reply {
    pub status: u16,
    pub body: String,
}

pub open spec fn root_path() -> Seq<char> {
    "/"@
}

pub open spec fn health_path() -> Seq<char> {
    "/health"@
}

pub open spec fn graphql_path() -> Seq<char> {
    "/graphql"@
}

pub open spec fn root_body() -> Seq<char> {
    "Hello, World!"@
}

pub open spec fn health_body() -> Seq<char> {
    "{\"code\":\"200\",\"success\":true}"@
}

/// The route of a request with the given method and path.
pub open spec fn route_of(method: Method, path: Seq<char>) -> Route {
    if path == root_path() {
        if method == Method::Get {
            Route::Root
        } else {
            Route::MethodNotAllowed
        }
    } else if path == health_path() {
        if method == Method::Get {
            Route::Health
        } else {
            Route::MethodNotAllowed
        }
    } else if path == graphql_path() {
        match method {
            Method::Get => Route::Explorer,
            Method::Post => Route::GraphQL,
            Method::Other => Route::MethodNotAllowed,
        }
    } else {
        Route::NotFound
    }
}

/// Dispatches a request by its method and path.
pub fn route(method: Method, path: &str) -> (r: Route)
    ensures
        r == route_of(method, path@),
{
    if str_eq(path, "/") {
        if method == Method::Get {
            Route::Root
        } else {
            Route::MethodNotAllowed
        }
    } else if str_eq(path, "/health") {
        if method == Method::Get {
            Route::Health
        } else {
            Route::MethodNotAllowed
        }
    } else if str_eq(path, "/graphql") {
        match method {
            Method::Get => Route::Explorer,
            Method::Post => Route::GraphQL,
            Method::Other => Route::MethodNotAllowed,
        }
    } else {
        Route::NotFound
    }
}

/// The status and body of a route whose reply does not depend on the request;
/// `None` for the explorer page and query execution.
pub open spec fn fixed_reply_of(r: Route) -> Option<(u16, Seq<char>)> {
    match r {
        Route::Root => Some((200, root_body())),
        Route::Health => Some((200, health_body())),
        Route::MethodNotAllowed => Some((405, Seq::empty())),
        Route::NotFound => Some((404, Seq::empty())),
        Route::Explorer => None,
        Route::GraphQL => None,
    }
}

/// The reply of a route that answers the same to every request.
pub fn fixed_reply(r: Route) -> (out: Option<Reply>)
    ensures
        match fixed_reply_of(r) {
            Some((status, body)) => out matches Some(p) && p.status == status && p.body@ == body,
            None => out is None,
        },
{
    match r {
        Route::Root => Some(Reply { status: 200, body: String::from_str("Hello, World!") }),
        Route::Health => Some(health_handler()),
        Route::MethodNotAllowed => Some(Reply { status: 405, body: String::new() }),
        Route::NotFound => Some(Reply { status: 404, body: String::new() }),
        Route::Explorer => None,
        Route::GraphQL => None,
    }
}

/// Answers the liveness check.
pub fn health_handler() -> (r: Reply)
    ensures
        r.status == 200,
        r.body@ == health_body(),
{
    Reply { status: 200, body: String::from_str("{\"code\":\"200\",\"success\":true}") }
}

/// The explorer page that async-graphql renders for an endpoint.
pub uninterp spec fn graphiql_page(endpoint: Seq<char>) -> Seq<char>;

/// Relies on async_graphql::http::GraphiQLSource: `build().endpoint(e).finish()`
/// renders a fixed template with the endpoint filled in, so the page depends on
/// the endpoint alone.
#[verifier::external_body]
fn render_graphiql(endpoint: &str) -> (r: String)
    ensures
        r@ == graphiql_page(endpoint@),
{
    async_graphql::http::GraphiQLSource::build().endpoint(endpoint).finish()
}

/// The interactive explorer page, which sends its queries to the query path.
pub fn graphiql() -> (r: String)
    ensures
        r@ == graphiql_page(graphql_path()),
{
    render_graphiql("/graphql")
}

} // verus!
