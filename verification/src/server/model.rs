//! The server's data and the decisions its GraphQL operations make on what
//! the database answered.
//!
//! The database is reached around this crate; each operation here takes the
//! database's outcome as a value and says what the operation answers, or
//! which write comes next.

use vstd::prelude::*;

verus! {

/// A user as the logic sees it.
#[verifier::ext_equal]
pub struct UserView {
    pub first_name: Seq<char>,
    pub last_name: Seq<char>,
    pub username: Seq<char>,
    pub email: Seq<char>,
}

/// A registered user.
#[derive(Clone, Debug, PartialEq)]
pub struct User {
    pub first_name: String,
    pub last_name: String,
    pub username: String,
    pub email: String,
}

impl View for User {
    type V = UserView;

    open spec fn view(&self) -> UserView {
        UserView {
            first_name: self.first_name@,
            last_name: self.last_name@,
            username: self.username@,
            email: self.email@,
        }
    }
}

/// A todo as the logic sees it.
#[verifier::ext_equal]
pub struct TodoView {
    pub id: u32,
    pub description: Seq<char>,
    pub completed: bool,
    pub editing: bool,
}

/// A stored todo.
#[derive(Clone, Debug, PartialEq)]
pub struct Todo {
    pub id: u32,
    pub description: String,
    pub completed: bool,
    pub editing: bool,
}

impl View for Todo {
    type V = TodoView;

    open spec fn view(&self) -> TodoView {
        TodoView {
            id: self.id,
            description: self.description@,
            completed: self.completed,
            editing: self.editing,
        }
    }
}

impl Todo {
    /// A copy of this todo.
    pub fn snapshot(&self) -> (r: Todo)
        ensures
            r@ == self@,
    {
        Todo {
            id: self.id,
            description: self.description.clone(),
            completed: self.completed,
            editing: self.editing,
        }
    }
}

/// The list of todos that the `setTodos` mutation stores.
pub struct AllTodoList {
    pub todos: Vec<Todo>,
}

/// An error as the GraphQL answer reports it: its message and, when set, the
/// `details` extension.
#[verifier::ext_equal]
pub struct GraphqlErrorView {
    pub message: Seq<char>,
    pub details: Option<Seq<char>>,
}

/// An error answered to a GraphQL operation.
#[derive(Clone, Debug, PartialEq)]
pub struct GraphqlError {
    pub message: String,
    pub details: Option<String>,
}

impl View for GraphqlError {
    type V = GraphqlErrorView;

    open spec fn view(&self) -> GraphqlErrorView {
        GraphqlErrorView {
            message: self.message@,
            details: match self.details {
                Some(d) => Some(d@),
                None => None,
            },
        }
    }
}

/// An error that carries only its message.
pub open spec fn plain_error(m: Seq<char>) -> GraphqlErrorView {
    GraphqlErrorView { message: m, details: None }
}

/// An error whose `details` extension repeats its message.
pub open spec fn detailed_error(m: Seq<char>) -> GraphqlErrorView {
    GraphqlErrorView { message: m, details: Some(m) }
}

impl GraphqlError {
    /// An error that carries only its message.
    pub fn plain(message: &str) -> (e: GraphqlError)
        ensures
            e@ == plain_error(message@),
    {
        GraphqlError { message: String::from_str(message), details: None }
    }

    /// An error whose `details` extension repeats its message.
    pub fn detailed(message: &str) -> (e: GraphqlError)
        ensures
            e@ == detailed_error(message@),
    {
        GraphqlError { message: String::from_str(message), details: Some(String::from_str(message)) }
    }
}

/// What a search of the users by username came to.
pub enum UserLookup {
    /// The search itself failed.
    SearchFailed,
    /// No user has the username.
    NotFound,
    /// The user's record was found and read.
    Decoded(User),
    /// The user's record was found but could not be read; the reason.
    Undecodable(String),
}

/// What a search of the users by username came to, as the logic sees it.
pub enum LookupView {
    SearchFailed,
    NotFound,
    Decoded(UserView),
    Undecodable(Seq<char>),
}

impl View for UserLookup {
    type V = LookupView;

    open spec fn view(&self) -> LookupView {
        match self {
            UserLookup::SearchFailed => LookupView::SearchFailed,
            UserLookup::NotFound => LookupView::NotFound,
            UserLookup::Decoded(u) => LookupView::Decoded(u@),
            UserLookup::Undecodable(reason) => LookupView::Undecodable(reason@),
        }
    }
}

/// The answer to a search of the users by username.
pub open spec fn lookup_answer(lookup: LookupView) -> Result<UserView, GraphqlErrorView> {
    match lookup {
        LookupView::SearchFailed => Err(detailed_error("Error searching mongodb"@)),
        LookupView::NotFound => Err(detailed_error("username not found"@)),
        LookupView::Decoded(u) => Ok(u),
        LookupView::Undecodable(reason) => Err(plain_error(reason)),
    }
}

/// The views of a user answer.
pub open spec fn user_answer_view(r: Result<User, GraphqlError>) -> Result<UserView, GraphqlErrorView> {
    match r {
        Ok(u) => Ok(u@),
        Err(e) => Err(e@),
    }
}

/// The views of a text answer.
pub open spec fn text_answer_view(r: Result<String, GraphqlError>) -> Result<Seq<char>, GraphqlErrorView> {
    match r {
        Ok(s) => Ok(s@),
        Err(e) => Err(e@),
    }
}

/// The `getUser` answer, given what the search for the username came to.
pub fn get_user_by_username(lookup: UserLookup) -> (r: Result<User, GraphqlError>)
    ensures
        user_answer_view(r) == lookup_answer(lookup@),
        lookup matches UserLookup::Decoded(u) ==> r == Ok::<User, GraphqlError>(u),
{
    match lookup {
        UserLookup::SearchFailed => Err(GraphqlError::detailed("Error searching mongodb")),
        UserLookup::NotFound => Err(GraphqlError::detailed("username not found")),
        UserLookup::Decoded(u) => Ok(u),
        UserLookup::Undecodable(reason) => Err(
            GraphqlError { message: reason, details: None },
        ),
    }
}

/// The user record that `addUser` inserts.
pub fn new_user(first_name: &str, last_name: &str, username: &str, email: &str) -> (u: User)
    ensures
        u@ == (UserView {
            first_name: first_name@,
            last_name: last_name@,
            username: username@,
            email: email@,
        }),
{
    User {
        first_name: String::from_str(first_name),
        last_name: String::from_str(last_name),
        username: String::from_str(username),
        email: String::from_str(email),
    }
}

/// The error `addUser` answers after its insert, if any: none when the
/// record was inserted.
pub open spec fn insert_answer(inserted: bool) -> Option<GraphqlErrorView> {
    if inserted {
        None
    } else {
        Some(detailed_error("Error insert mongodb"@))
    }
}

/// After `addUser` tried to insert the record: when the insert failed, the
/// error to answer; otherwise nothing, and the user is searched for next.
pub fn add_user_after_insert(inserted: bool) -> (r: Option<GraphqlError>)
    ensures
        match r {
            Some(e) => insert_answer(inserted) == Some(e@),
            None => insert_answer(inserted) is None,
        },
{
    if inserted {
        None
    } else {
        Some(GraphqlError::detailed("Error insert mongodb"))
    }
}

/// The `addUser` answer after the inserted user was searched for: the search's
/// error, or `user added` once the record was read back.
pub open spec fn add_user_answer(lookup: LookupView) -> Result<Seq<char>, GraphqlErrorView> {
    match lookup_answer(lookup) {
        Ok(_) => Ok("user added"@),
        Err(e) => Err(e),
    }
}

/// The `addUser` answer, given what the search for the inserted username came
/// to.
pub fn add_user_after_lookup(lookup: UserLookup) -> (r: Result<String, GraphqlError>)
    ensures
        text_answer_view(r) == add_user_answer(lookup@),
{
    match get_user_by_username(lookup) {
        Ok(_user) => Ok(String::from_str("user added")),
        Err(e) => Err(e),
    }
}

/// The todos among the items a cursor produced: those it could read, in order.
pub open spec fn readable(items: Seq<Option<Todo>>) -> Seq<TodoView>
    decreases items.len(),
{
    if items.len() == 0 {
        Seq::empty()
    } else {
        match items.last() {
            Some(t) => readable(items.drop_last()).push(t@),
            None => readable(items.drop_last()),
        }
    }
}

/// The views of a list of todos.
pub open spec fn todos_view(v: Seq<Todo>) -> Seq<TodoView> {
    v.map_values(|t: Todo| t@)
}

/// Keeps the todos a cursor could read, in order, and drops the items it could
/// not.
pub fn readable_todos(items: &Vec<Option<Todo>>) -> (r: Vec<Todo>)
    ensures
        todos_view(r@) == readable(items@),
{
    let mut r: Vec<Todo> = Vec::new();
    let n = items.len();
    for i in 0..n
        invariant
            n == items@.len(),
            todos_view(r@) == readable(items@.take(i as int)),
    {
        proof {
            assert(items@.take(i + 1).drop_last() =~= items@.take(i as int));
        }
        let ghost before = todos_view(r@);
        match &items[i] {
            Some(t) => {
                r.push(t.snapshot());
                assert(todos_view(r@) =~= before.push(t@));
            },
            None => {},
        }
    }
    assert(items@.take(n as int) =~= items@);
    r
}

/// The key under which `getTodos` answers the todos.
pub open spec fn todos_key() -> Seq<char> {
    "todos"@
}

/// The `getTodos` answer: the search's error, or the readable todos under the
/// key `todos`.
pub fn get_todos_answer(found: Result<Vec<Option<Todo>>, String>) -> (r: Result<(String, Vec<Todo>), GraphqlError>)
    ensures
        match found {
            Err(m) => r matches Err(e) && e@ == plain_error(m@),
            Ok(items) => r matches Ok((key, todos)) && key@ == todos_key() && todos_view(todos@)
                == readable(items@),
        },
{
    match found {
        Err(m) => Err(GraphqlError { message: m, details: None }),
        Ok(items) => Ok((String::from_str("todos"), readable_todos(&items))),
    }
}

/// What the search of the todos by id came to.
pub enum FindById {
    /// A todo with the id is stored.
    Found,
    /// No todo with the id is stored.
    Absent,
    /// The search failed, for this reason.
    Failed(String),
}

/// The write that `setTodos` makes for one todo.
pub enum TodoWrite {
    /// Overwrite the stored todo with the same id.
    Update(Todo),
    /// Store the todo as a new record.
    Insert(Todo),
    /// Stop and answer this error.
    Abort(GraphqlError),
}

/// The effect of a write on the stored todos.
pub enum StoreWrite {
    Update(TodoView),
    Insert(TodoView),
    Abort,
}

impl TodoWrite {
    /// The effect of this write on the stored todos.
    pub open spec fn effect(self) -> StoreWrite {
        match self {
            TodoWrite::Update(t) => StoreWrite::Update(t@),
            TodoWrite::Insert(t) => StoreWrite::Insert(t@),
            TodoWrite::Abort(_) => StoreWrite::Abort,
        }
    }
}

/// The write `setTodos` plans for `t` given what the search for its id came to.
pub open spec fn planned_write(t: TodoView, found: FindById) -> StoreWrite {
    match found {
        FindById::Found => StoreWrite::Update(t),
        FindById::Absent => StoreWrite::Insert(t),
        FindById::Failed(_) => StoreWrite::Abort,
    }
}

/// The write `setTodos` makes for `todo`, given what the search for its id came
/// to: overwrite the stored todo, store a new one, or stop with the search's
/// error.
pub fn set_todos_step(todo: Todo, found: FindById) -> (w: TodoWrite)
    ensures
        w.effect() == planned_write(todo@, found),
        found matches FindById::Failed(m) ==> w matches TodoWrite::Abort(e) && e@ == plain_error(m@),
{
    match found {
        FindById::Found => TodoWrite::Update(todo),
        FindById::Absent => TodoWrite::Insert(todo),
        FindById::Failed(m) => TodoWrite::Abort(GraphqlError { message: m, details: None }),
    }
}

/// The `setTodos` answer once every todo was written.
pub fn set_todos_done() -> (r: Result<String, GraphqlError>)
    ensures
        text_answer_view(r) == Ok::<Seq<char>, GraphqlErrorView>("Ok"@),
{
    Ok(String::from_str("Ok"))
}

/// Whether a user with `username` is among `store`.
pub open spec fn has_username(store: Seq<UserView>, username: Seq<char>) -> bool {
    exists|i: int| 0 <= i < store.len() && #[trigger] store[i].username == username
}

/// Whether no two users of `store` share a username, as the unique index on
/// usernames keeps the users collection.
pub open spec fn unique_usernames(store: Seq<UserView>) -> bool {
    forall|i: int, j: int|
        0 <= i < j < store.len() ==> #[trigger] store[i].username != #[trigger] store[j].username
}

/// What a search of `store` for `username` comes to.
pub open spec fn search_users(store: Seq<UserView>, username: Seq<char>) -> LookupView {
    if has_username(store, username) {
        LookupView::Decoded(
            store[choose|i: int| 0 <= i < store.len() && #[trigger] store[i].username == username],
        )
    } else {
        LookupView::NotFound
    }
}

/// Whether the users collection takes `u`: its unique index on usernames
/// refuses a user whose username is already stored.
pub open spec fn insert_accepted(store: Seq<UserView>, u: UserView) -> bool {
    !has_username(store, u.username)
}

/// The users collection after `addUser` tried to insert `u`.
pub open spec fn after_insert(store: Seq<UserView>, u: UserView) -> Seq<UserView> {
    if insert_accepted(store, u) {
        store.push(u)
    } else {
        store
    }
}

/// What `addUser` answers on `store`: the insert's error, or else the
/// answer for the search of the username that follows the insert.
pub open spec fn add_user_outcome(store: Seq<UserView>, u: UserView) -> Result<Seq<char>, GraphqlErrorView> {
    match insert_answer(insert_accepted(store, u)) {
        Some(e) => Err(e),
        None => add_user_answer(search_users(after_insert(store, u), u.username)),
    }
}

/// `addUser` on a users collection with a unique index on usernames: when no
/// stored user has the new user's username, the user is stored, `addUser`
/// answers `user added`, and `getUser` for that username answers the new
/// user, field for field; when one has, the insert is refused, nothing is
/// stored, and `addUser` answers the insert error. A collection with unique
/// usernames keeps them unique.
pub proof fn lemma_add_user_then_get(store: Seq<UserView>, u: UserView)
    ensures
        insert_accepted(store, u) ==> {
            &&& after_insert(store, u) == store.push(u)
            &&& add_user_outcome(store, u) == Ok::<Seq<char>, GraphqlErrorView>("user added"@)
            &&& lookup_answer(search_users(after_insert(store, u), u.username)) == Ok::<
                UserView,
                GraphqlErrorView,
            >(u)
        },
        !insert_accepted(store, u) ==> {
            &&& after_insert(store, u) == store
            &&& add_user_outcome(store, u) == Err::<Seq<char>, GraphqlErrorView>(
                detailed_error("Error insert mongodb"@),
            )
        },
        unique_usernames(store) ==> unique_usernames(after_insert(store, u)),
{
    if insert_accepted(store, u) {
        let s2 = store.push(u);
        assert(s2[store.len() as int].username == u.username);
        assert(has_username(s2, u.username));
        let k = choose|i: int| 0 <= i < s2.len() && #[trigger] s2[i].username == u.username;
        if k < store.len() {
            assert(store[k] == s2[k]);
        }
        assert(k == store.len());
        if unique_usernames(store) {
            assert forall|i: int, j: int| 0 <= i < j < s2.len() implies #[trigger] s2[i].username
                != #[trigger] s2[j].username by {
                if j == store.len() {
                    assert(store[i] == s2[i]);
                }
            }
        }
    }
}

/// Whether a todo with `id` is among `store`.
pub open spec fn holds_id(store: Seq<TodoView>, id: u32) -> bool {
    exists|i: int| 0 <= i < store.len() && #[trigger] store[i].id == id
}

/// What a search by id finds in `store`.
pub open spec fn search_answer(store: Seq<TodoView>, id: u32) -> FindById {
    if holds_id(store, id) {
        FindById::Found
    } else {
        FindById::Absent
    }
}

/// `store` after a write: an update overwrites the records with the todo's id,
/// an insert appends the todo.
pub open spec fn apply_write(store: Seq<TodoView>, w: StoreWrite) -> Seq<TodoView> {
    match w {
        StoreWrite::Update(t) => Seq::new(
            store.len(),
            |i: int|
                if store[i].id == t.id {
                    t
                } else {
                    store[i]
                },
        ),
        StoreWrite::Insert(t) => store.push(t),
        StoreWrite::Abort => store,
    }
}

/// The todos stored once `setTodos` has emptied the collection and written
/// `todos` one by one, each search by id answering from what is stored.
pub open spec fn stored_after(todos: Seq<TodoView>) -> Seq<TodoView>
    decreases todos.len(),
{
    if todos.len() == 0 {
        Seq::empty()
    } else {
        let store = stored_after(todos.drop_last());
        let t = todos.last();
        apply_write(store, planned_write(t, search_answer(store, t.id)))
    }
}

/// The last of `todos` whose id is `id`.
pub open spec fn last_with_id(todos: Seq<TodoView>, id: u32) -> TodoView
    recommends
        holds_id(todos, id),
    decreases todos.len(),
{
    if todos.len() == 0 {
        todos[0]
    } else if todos.last().id == id {
        todos.last()
    } else {
        last_with_id(todos.drop_last(), id)
    }
}

/// After `setTodos`, the collection holds one record for each id among the
/// posted todos and no other, and each record carries the values last posted
/// for its id.
pub proof fn lemma_set_todos_stores_posted(todos: Seq<TodoView>)
    ensures
        forall|i: int, j: int|
            0 <= i < j < stored_after(todos).len() ==> stored_after(todos)[i].id
                != stored_after(todos)[j].id,
        forall|id: u32| holds_id(stored_after(todos), id) <==> holds_id(todos, id),
        forall|i: int|
            0 <= i < stored_after(todos).len() ==> #[trigger] stored_after(todos)[i]
                == last_with_id(todos, stored_after(todos)[i].id),
    decreases todos.len(),
{
    if todos.len() > 0 {
        let prefix = todos.drop_last();
        let t = todos.last();
        let store = stored_after(prefix);
        lemma_set_todos_stores_posted(prefix);
        let after = stored_after(todos);
        assert forall|id: u32| holds_id(todos, id) <==> (holds_id(prefix, id) || t.id == id) by {
            if holds_id(todos, id) && t.id != id {
                let i = choose|i: int| 0 <= i < todos.len() && #[trigger] todos[i].id == id;
                assert(prefix[i].id == id);
            }
            if holds_id(prefix, id) {
                let i = choose|i: int| 0 <= i < prefix.len() && #[trigger] prefix[i].id == id;
                assert(todos[i].id == id);
            }
            if t.id == id {
                assert(todos[todos.len() - 1].id == id);
            }
        }
        if holds_id(store, t.id) {
            assert forall|id: u32| holds_id(after, id) <==> holds_id(store, id) by {
                if holds_id(after, id) {
                    let i = choose|i: int| 0 <= i < after.len() && #[trigger] after[i].id == id;
                    assert(store[i].id == id);
                }
                if holds_id(store, id) {
                    let i = choose|i: int| 0 <= i < store.len() && #[trigger] store[i].id == id;
                    assert(after[i].id == id);
                }
            }
        } else {
            assert(after == store.push(t));
            assert forall|id: u32| holds_id(after, id) <==> (holds_id(store, id) || t.id == id) by {
                if holds_id(after, id) && t.id != id {
                    let i = choose|i: int| 0 <= i < after.len() && #[trigger] after[i].id == id;
                    assert(store[i].id == id);
                }
                if holds_id(store, id) {
                    let i = choose|i: int| 0 <= i < store.len() && #[trigger] store[i].id == id;
                    assert(after[i].id == id);
                }
                if t.id == id {
                    assert(after[after.len() - 1].id == id);
                }
            }
            assert forall|i: int, j: int| 0 <= i < j < after.len() implies after[i].id != after[j].id by {
                if j == after.len() - 1 {
                    assert(store[i].id == after[i].id);
                }
            }
        }
    }
}

/// Whether no two of `todos` share an id.
pub open spec fn distinct_ids(todos: Seq<TodoView>) -> bool {
    forall|i: int, j: int| 0 <= i < j < todos.len() ==> #[trigger] todos[i].id != #[trigger] todos[j].id
}

/// Whether a cursor's `items` read back every todo of `store` one for one, in
/// the order stored.
pub open spec fn reads_back(items: Seq<Option<Todo>>, store: Seq<TodoView>) -> bool {
    &&& items.len() == store.len()
    &&& forall|i: int| 0 <= i < items.len() ==> (#[trigger] items[i] matches Some(t) && t@ == store[i])
}

/// The readable todos of items that read back `store` are `store`.
pub proof fn lemma_readable_reads_back(items: Seq<Option<Todo>>, store: Seq<TodoView>)
    requires
        reads_back(items, store),
    ensures
        readable(items) == store,
    decreases items.len(),
{
    if items.len() > 0 {
        let p = items.drop_last();
        let q = store.drop_last();
        assert forall|i: int| 0 <= i < p.len() implies (#[trigger] p[i] matches Some(t) && t@ == q[i]) by {
            assert(p[i] == items[i]);
        }
        lemma_readable_reads_back(p, q);
        assert(items[items.len() - 1] matches Some(t) && t@ == store[store.len() - 1]);
        assert(readable(items) =~= store);
    }
}

/// `setTodos` then `getTodos`: when the posted todos have distinct ids, the
/// collection holds exactly the posted todos in the order posted, and
/// `getTodos`, whose cursor reads the stored records back, answers exactly
/// the posted todos.
pub proof fn lemma_set_todos_then_get_todos(todos: Seq<TodoView>, items: Seq<Option<Todo>>)
    requires
        distinct_ids(todos),
    ensures
        stored_after(todos) == todos,
        reads_back(items, stored_after(todos)) ==> readable(items) == todos,
    decreases todos.len(),
{
    if todos.len() > 0 {
        let prefix = todos.drop_last();
        let t = todos.last();
        assert forall|i: int, j: int| 0 <= i < j < prefix.len() implies #[trigger] prefix[i].id
            != #[trigger] prefix[j].id by {
            assert(prefix[i] == todos[i] && prefix[j] == todos[j]);
        }
        lemma_set_todos_then_get_todos(prefix, Seq::empty());
        if holds_id(prefix, t.id) {
            let i = choose|i: int| 0 <= i < prefix.len() && #[trigger] prefix[i].id == t.id;
            assert(todos[i].id == todos[todos.len() - 1].id);
        }
        assert(stored_after(todos) =~= todos);
    }
    if reads_back(items, stored_after(todos)) {
        lemma_readable_reads_back(items, stored_after(todos));
    }
}

/// The answers to a user search: the found user itself; `username not found`
/// and `Error searching mongodb` with their message repeated as details; an
/// unreadable record's reason with no details. `addUser` answers `user
/// added` for a found user and the search's error otherwise.
pub proof fn lemma_lookup_answers(u: UserView, reason: Seq<char>)
    ensures
        lookup_answer(LookupView::Decoded(u)) == Ok::<UserView, GraphqlErrorView>(u),
        lookup_answer(LookupView::NotFound) == Err::<UserView, GraphqlErrorView>(
            GraphqlErrorView { message: "username not found"@, details: Some("username not found"@) },
        ),
        lookup_answer(LookupView::SearchFailed) == Err::<UserView, GraphqlErrorView>(
            GraphqlErrorView { message: "Error searching mongodb"@, details: Some("Error searching mongodb"@) },
        ),
        lookup_answer(LookupView::Undecodable(reason)) == Err::<UserView, GraphqlErrorView>(
            GraphqlErrorView { message: reason, details: None },
        ),
        add_user_answer(LookupView::Decoded(u)) == Ok::<Seq<char>, GraphqlErrorView>("user added"@),
        add_user_answer(LookupView::NotFound) == Err::<Seq<char>, GraphqlErrorView>(
            GraphqlErrorView { message: "username not found"@, details: Some("username not found"@) },
        ),
        insert_answer(true) is None,
        insert_answer(false) == Some(
            GraphqlErrorView { message: "Error insert mongodb"@, details: Some("Error insert mongodb"@) },
        ),
{
}

/// The readable todos of a cursor are its readable items in order: none for
/// no items, one more for an item read, the same for an item not read.
pub proof fn lemma_readable(items: Seq<Option<Todo>>, t: Todo)
    ensures
        readable(Seq::empty()) == Seq::<TodoView>::empty(),
        readable(items.push(Some(t))) == readable(items).push(t@),
        readable(items.push(None)) == readable(items),
        readable(items).len() <= items.len(),
{
    assert(items.push(Some(t)).drop_last() =~= items);
    assert(items.push(None::<Todo>).drop_last() =~= items);
    lemma_readable_len(items);
}

proof fn lemma_readable_len(items: Seq<Option<Todo>>)
    ensures
        readable(items).len() <= items.len(),
    decreases items.len(),
{
    if items.len() > 0 {
        lemma_readable_len(items.drop_last());
    }
}

} // verus!
