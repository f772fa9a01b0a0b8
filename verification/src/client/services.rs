//! The client's requests to the server: the GraphQL operations it names and
//! the addresses of the REST resources.

use vstd::prelude::*;
use crate::client::state::EntryView;
use crate::client::types::TodoListInfo;
use crate::text::join_str;

verus! {

/// The GraphQL query that reads every todo.
pub struct GetTodos;

/// The GraphQL mutation that replaces the stored todos.
pub struct SetTodos;

/// A todo as the `SetTodos` mutation takes it.
pub struct NewTodo {
    pub id: i64,
    pub description: String,
    pub completed: bool,
    pub editing: bool,
}

/// The list of todos the `SetTodos` mutation takes.
pub struct AllTodoListInput {
    pub todos: Vec<NewTodo>,
}

/// The variables of the `SetTodos` mutation.
pub struct SetTodosVariables {
    pub data: AllTodoListInput,
}

/// Whether `n` carries the same todo as the entry `e`.
pub open spec fn carries(n: NewTodo, e: EntryView) -> bool {
    &&& n.id == e.id as int
    &&& n.description@ == e.description
    &&& n.completed == e.completed
    &&& n.editing == e.editing
}

impl GetTodos {
    /// The operation's name in the request.
    pub fn operation_name() -> (n: &'static str)
        ensures
            n@ == "GetTodos"@,
    {
        "GetTodos"
    }
}

impl SetTodos {
    /// The operation's name in the request.
    pub fn operation_name() -> (n: &'static str)
        ensures
            n@ == "SetTodos"@,
    {
        "SetTodos"
    }

    /// The variables that send `new_todos` to the server, one for one and in
    /// order.
    pub fn variables(new_todos: &TodoListInfo) -> (v: SetTodosVariables)
        ensures
            v.data.todos@.len() == new_todos.todos@.len(),
            forall|i: int|
                0 <= i < new_todos.todos@.len() ==> carries(
                    #[trigger] v.data.todos@[i],
                    new_todos.todos@[i]@,
                ),
    {
        let mut todos: Vec<NewTodo> = Vec::new();
        let n = new_todos.todos.len();
        for i in 0..n
            invariant
                n == new_todos.todos@.len(),
                todos@.len() == i,
                forall|k: int| 0 <= k < i ==> carries(#[trigger] todos@[k], new_todos.todos@[k]@),
        {
            let e = &new_todos.todos[i];
            todos.push(
                NewTodo {
                    id: e.id as i64,
                    description: e.description.clone(),
                    completed: e.completed,
                    editing: e.editing,
                },
            );
        }
        SetTodosVariables { data: AllTodoListInput { todos } }
    }
}

/// The path of the GraphQL endpoint.
pub fn graphql_path() -> (p: &'static str)
    ensures
        p@ == "/graphql"@,
{
    "/graphql"
}

/// The path of the todo collection.
pub fn todos_path() -> (p: &'static str)
    ensures
        p@ == "/todos"@,
{
    "/todos"
}

/// The path of one todo: `/todos/{id}`.
pub fn todo_path(id: &str) -> (p: String)
    ensures
        p@ == "/todos/"@ + id@,
{
    join_str("/todos/", id)
}

/// A todo sent with `SetTodos` carries the entry's id, text and flags.
pub proof fn lemma_carries(n: NewTodo, e: EntryView)
    ensures
        carries(n, e) <==> (n.id == e.id && n.description@ == e.description && n.completed
            == e.completed && n.editing == e.editing),
{
}

} // verus!
