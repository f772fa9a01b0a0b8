//! The replies of the server's HTTP routes: the GraphQL playground page and the
//! REST routes for users and todos, each given what the database answered.

use vstd::prelude::*;
use async_graphql::http::{playground_source, GraphQLPlaygroundConfig};
use crate::server::model::{
    GraphqlError, Todo, User, readable, readable_todos, todos_key, todos_view,
};
use crate::text::join_str;

verus! {

/// The page that async-graphql's `playground_source` renders for a
/// playground whose queries go to `endpoint` and whose subscriptions go to
/// `subscription_endpoint`.
pub uninterp spec fn playground_page(endpoint: Seq<char>, subscription_endpoint: Seq<char>) -> Seq<char>;

/// Calls `async_graphql::http::playground_source` on a
/// `GraphQLPlaygroundConfig` with only the endpoint and the subscription
/// endpoint set. The contract claims that the page is a fixed function of
/// those two addresses, named `playground_page`, and nothing of its text.
#[verifier::external_body]
fn playground_html(endpoint: &str, subscription_endpoint: &str) -> (html: String)
    ensures
        html@ == playground_page(endpoint@, subscription_endpoint@),
{
    playground_source(GraphQLPlaygroundConfig::new(endpoint).subscription_endpoint(subscription_endpoint))
}

/// An HTML page sent with status 200.
pub struct HtmlReply {
    pub content_type: String,
    pub body: String,
}

/// A reply with a status and a text body.
pub struct TextReply {
    pub status: u16,
    pub body: String,
}

/// The address the playground's queries and subscriptions go to.
pub open spec fn playground_endpoint() -> Seq<char> {
    "/api/graphql"@
}

/// Sends a rendered playground page as HTML.
pub fn playground_reply(html: String) -> (r: HtmlReply)
    ensures
        r.content_type@ == "text/html; charset=utf-8"@,
        r.body == html,
{
    HtmlReply { content_type: String::from_str("text/html; charset=utf-8"), body: html }
}

/// The GraphQL playground page, pointed at the server's GraphQL address.
pub fn index_playground() -> (r: HtmlReply)
    ensures
        r.content_type@ == "text/html; charset=utf-8"@,
        r.body@ == playground_page(playground_endpoint(), playground_endpoint()),
{
    let html = playground_html("/api/graphql", "/api/graphql");
    playground_reply(html)
}

/// The reply of `POST /add_user`, given how the insert went.
pub fn add_user_reply(insert: Result<(), String>) -> (r: TextReply)
    ensures
        match insert {
            Ok(_) => r.status == 200 && r.body@ == "user added"@,
            Err(m) => r.status == 500 && r.body@ == m@,
        },
{
    match insert {
        Ok(_) => TextReply { status: 200, body: String::from_str("user added") },
        Err(m) => TextReply { status: 500, body: m },
    }
}

/// The reply of `GET /get_user/{username}`.
pub enum UserReply {
    /// Status 200 with the user as JSON.
    Json(User),
    /// Any other reply.
    Text(TextReply),
}

/// The reply of `GET /get_user/{username}`, given what the search found.
pub fn get_user_reply(username: &str, found: Result<Option<User>, String>) -> (r: UserReply)
    ensures
        match found {
            Ok(Some(u)) => r == UserReply::Json(u),
            Ok(None) => r matches UserReply::Text(t) && t.status == 404 && t.body@
                == "No user found with username "@ + username@,
            Err(m) => r matches UserReply::Text(t) && t.status == 500 && t.body@ == m@,
        },
{
    match found {
        Ok(Some(u)) => UserReply::Json(u),
        Ok(None) => UserReply::Text(
            TextReply { status: 404, body: join_str("No user found with username ", username) },
        ),
        Err(m) => UserReply::Text(TextReply { status: 500, body: m }),
    }
}

/// The reply of `GET /api/todos`.
pub enum TodosReply {
    /// Status 200 with the todos as JSON, under their key.
    Json((String, Vec<Todo>)),
    /// Any other reply.
    Text(TextReply),
}

/// The reply of `GET /api/todos`, given what the search of the todos came to.
pub fn get_todos_reply(found: Result<Vec<Option<Todo>>, String>) -> (r: TodosReply)
    ensures
        match found {
            Ok(items) => r matches TodosReply::Json((key, todos)) && key@ == todos_key()
                && todos_view(todos@) == readable(items@),
            Err(m) => r matches TodosReply::Text(t) && t.status == 500 && t.body@ == m@,
        },
{
    match found {
        Ok(items) => TodosReply::Json((String::from_str("todos"), readable_todos(&items))),
        Err(m) => TodosReply::Text(TextReply { status: 500, body: m }),
    }
}

/// The reply of `POST /api/todos` when a write stopped with `e`.
pub fn set_todos_abort_reply(e: GraphqlError) -> (r: TextReply)
    ensures
        r.status == 500,
        r.body == e.message,
{
    TextReply { status: 500, body: e.message }
}

/// The reply of `POST /api/todos` once every todo was written.
pub fn set_todos_done_reply() -> (r: TextReply)
    ensures
        r.status == 200,
        r.body@ == "Ok"@,
{
    TextReply { status: 200, body: String::from_str("Ok") }
}

} // verus!
