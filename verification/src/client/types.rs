//! The values the client exchanges with the server.

use vstd::prelude::*;
use crate::client::state::Entry;

verus! {

/// A todo as the server describes it.
pub type TodoInfo = Entry;

/// One todo, wrapped as the REST interface sends it.
pub struct TodoInfoWrapper {
    pub todo: TodoInfo,
}

/// A list of todos.
pub struct TodoListInfo {
    pub todos: Vec<TodoInfo>,
}

/// The editable part of a todo.
pub struct TodoCreateUpdateInfo {
    pub description: String,
}

/// The editable part of a todo, wrapped as the REST interface expects it.
pub struct TodoCreateUpdateInfoWrapper {
    pub todo: TodoCreateUpdateInfo,
}

/// The server's description of what was wrong with a request: for each
/// field, its messages.
#[derive(Clone, Debug)]
pub struct ErrorInfo {
    pub errors: Vec<(String, Vec<String>)>,
}

/// Why a request failed.
#[derive(Clone, Debug)]
pub enum Error {
    Unauthorized,
    Forbidden,
    NotFound,
    UnprocessableEntity(ErrorInfo),
    InternalServerError,
    DeserializeError,
    RequestError,
}

} // verus!
