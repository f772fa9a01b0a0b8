use todo_graphql::server::handlers::{
    add_user_reply, get_todos_reply, get_user_reply, index_playground, playground_reply,
    set_todos_abort_reply, set_todos_done_reply, TodosReply, UserReply,
};
use todo_graphql::server::model::{
    add_user_after_insert, add_user_after_lookup, get_todos_answer, get_user_by_username, new_user,
    readable_todos, set_todos_done, set_todos_step, FindById, GraphqlError, Todo, TodoWrite, User,
    UserLookup,
};

fn jane() -> User {
    new_user("Jane149", "Doe149", "janedoe149", "example149@email.com")
}

fn todo(id: u32, description: &str) -> Todo {
    Todo { id, description: description.to_string(), completed: false, editing: false }
}

#[test]
fn new_user_keeps_the_fields() {
    let u = jane();
    assert_eq!(u.first_name, "Jane149");
    assert_eq!(u.last_name, "Doe149");
    assert_eq!(u.username, "janedoe149");
    assert_eq!(u.email, "example149@email.com");
}

#[test]
fn get_user_hands_back_the_found_user() {
    assert_eq!(get_user_by_username(UserLookup::Decoded(jane())), Ok(jane()));
}

#[test]
fn get_user_errors() {
    let e = get_user_by_username(UserLookup::NotFound).unwrap_err();
    assert_eq!(e.message, "username not found");
    assert_eq!(e.details.as_deref(), Some("username not found"));
    let e = get_user_by_username(UserLookup::SearchFailed).unwrap_err();
    assert_eq!(e.message, "Error searching mongodb");
    assert_eq!(e.details.as_deref(), Some("Error searching mongodb"));
    let e = get_user_by_username(UserLookup::Undecodable("missing field `email`".to_string()))
        .unwrap_err();
    assert_eq!(e, GraphqlError { message: "missing field `email`".to_string(), details: None });
}

#[test]
fn add_user_answers_user_added_once_read_back() {
    assert!(add_user_after_insert(true).is_none());
    assert_eq!(add_user_after_lookup(UserLookup::Decoded(jane())), Ok("user added".to_string()));
}

#[test]
fn add_user_errors() {
    let e = add_user_after_insert(false).unwrap();
    assert_eq!(e.message, "Error insert mongodb");
    assert_eq!(e.details.as_deref(), Some("Error insert mongodb"));
    let e = add_user_after_lookup(UserLookup::NotFound).unwrap_err();
    assert_eq!(e.message, "username not found");
    let e = add_user_after_lookup(UserLookup::SearchFailed).unwrap_err();
    assert_eq!(e.message, "Error searching mongodb");
}

#[test]
fn unreadable_todos_are_skipped_in_order() {
    let items = vec![Some(todo(1, "a")), None, Some(todo(3, "c")), None];
    assert_eq!(readable_todos(&items), vec![todo(1, "a"), todo(3, "c")]);
}

#[test]
fn get_todos_answers_under_the_todos_key() {
    let (key, todos) = get_todos_answer(Ok(vec![Some(todo(2, "b")), None])).unwrap();
    assert_eq!(key, "todos");
    assert_eq!(todos, vec![todo(2, "b")]);
    let e = get_todos_answer(Err("connection refused".to_string())).unwrap_err();
    assert_eq!(e, GraphqlError { message: "connection refused".to_string(), details: None });
}

#[test]
fn set_todos_steps() {
    assert!(matches!(set_todos_step(todo(1, "a"), FindById::Found), TodoWrite::Update(t) if t == todo(1, "a")));
    assert!(matches!(set_todos_step(todo(1, "a"), FindById::Absent), TodoWrite::Insert(t) if t == todo(1, "a")));
    match set_todos_step(todo(1, "a"), FindById::Failed("timeout".to_string())) {
        TodoWrite::Abort(e) => assert_eq!(e, GraphqlError { message: "timeout".to_string(), details: None }),
        _ => panic!("expected the search's error"),
    }
    assert_eq!(set_todos_done(), Ok("Ok".to_string()));
}

/// Runs the `setTodos` writes against an in-memory collection whose searches
/// answer from what it holds.
fn run_set_todos(posted: Vec<Todo>) -> Vec<Todo> {
    let mut store: Vec<Todo> = Vec::new();
    for t in posted {
        let found = if store.iter().any(|s| s.id == t.id) { FindById::Found } else { FindById::Absent };
        match set_todos_step(t, found) {
            TodoWrite::Update(t) => {
                for s in store.iter_mut().filter(|s| s.id == t.id) {
                    *s = t.clone();
                }
            },
            TodoWrite::Insert(t) => store.push(t),
            TodoWrite::Abort(_) => unreachable!(),
        }
    }
    store
}

#[test]
fn set_todos_keeps_one_record_per_id_with_last_values() {
    let stored = run_set_todos(vec![todo(1, "a"), todo(2, "b"), todo(1, "a2"), todo(3, "c"), todo(2, "b2")]);
    assert_eq!(stored, vec![todo(1, "a2"), todo(2, "b2"), todo(3, "c")]);
}

#[test]
fn rest_user_replies() {
    let r = add_user_reply(Ok(()));
    assert_eq!((r.status, r.body.as_str()), (200, "user added"));
    let r = add_user_reply(Err("duplicate key".to_string()));
    assert_eq!((r.status, r.body.as_str()), (500, "duplicate key"));
    assert!(matches!(get_user_reply("janedoe149", Ok(Some(jane()))), UserReply::Json(u) if u == jane()));
    match get_user_reply("bob", Ok(None)) {
        UserReply::Text(t) => {
            assert_eq!(t.status, 404);
            assert_eq!(t.body, "No user found with username bob");
        },
        _ => panic!("expected not found"),
    }
    match get_user_reply("bob", Err("down".to_string())) {
        UserReply::Text(t) => assert_eq!((t.status, t.body.as_str()), (500, "down")),
        _ => panic!("expected a server error"),
    }
}

#[test]
fn rest_todo_replies() {
    match get_todos_reply(Ok(vec![None, Some(todo(5, "e"))])) {
        TodosReply::Json((key, todos)) => {
            assert_eq!(key, "todos");
            assert_eq!(todos, vec![todo(5, "e")]);
        },
        _ => panic!("expected the todos"),
    }
    match get_todos_reply(Err("down".to_string())) {
        TodosReply::Text(t) => assert_eq!((t.status, t.body.as_str()), (500, "down")),
        _ => panic!("expected a server error"),
    }
    let r = set_todos_abort_reply(GraphqlError { message: "timeout".to_string(), details: None });
    assert_eq!((r.status, r.body.as_str()), (500, "timeout"));
    let r = set_todos_done_reply();
    assert_eq!((r.status, r.body.as_str()), (200, "Ok"));
}

#[test]
fn playground_page_points_at_the_graphql_address() {
    let r = index_playground();
    assert_eq!(r.content_type, "text/html; charset=utf-8");
    assert!(r.body.contains("GraphQL Playground"));
    assert!(r.body.contains("\"endpoint\":\"/api/graphql\""));
    assert!(r.body.contains("\"subscriptionEndpoint\":\"/api/graphql\""));
    assert_ne!(r.body, "/api/graphql");
    let r = playground_reply("<p>x</p>".to_string());
    assert_eq!(r.body, "<p>x</p>");
}

/// Searches an in-memory users collection the way the server's search does.
fn search(store: &[User], username: &str) -> UserLookup {
    match store.iter().find(|u| u.username == username) {
        Some(u) => UserLookup::Decoded(u.clone()),
        None => UserLookup::NotFound,
    }
}

#[test]
fn add_user_then_get_user_gives_the_fields_back() {
    let mut store: Vec<User> = Vec::new();
    let user = jane();
    let inserted = !store.iter().any(|u| u.username == user.username);
    assert!(add_user_after_insert(inserted).is_none());
    store.push(user.clone());
    assert_eq!(add_user_after_lookup(search(&store, "janedoe149")), Ok("user added".to_string()));
    let found = get_user_by_username(search(&store, "janedoe149")).unwrap();
    assert_eq!(found.first_name, "Jane149");
    assert_eq!(found.last_name, "Doe149");
    assert_eq!(found.username, "janedoe149");
    assert_eq!(found.email, "example149@email.com");
    let again = !store.iter().any(|u| u.username == user.username);
    assert_eq!(add_user_after_insert(again).unwrap().message, "Error insert mongodb");
}

#[test]
fn set_todos_then_get_todos_gives_the_posted_todos_back() {
    let posted = vec![todo(3, "c"), todo(1, "a"), todo(2, "b")];
    let stored = run_set_todos(posted.clone());
    assert_eq!(stored, posted);
    let items: Vec<Option<Todo>> = stored.into_iter().map(Some).collect();
    let (key, todos) = get_todos_answer(Ok(items)).unwrap();
    assert_eq!(key, "todos");
    assert_eq!(todos, posted);
}

#[test]
fn add_user_with_a_taken_username_is_refused() {
    let mut store: Vec<User> = vec![jane()];
    let other = new_user("Janet", "Roe", "janedoe149", "other@email.com");
    let inserted = !store.iter().any(|u| u.username == other.username);
    if inserted {
        store.push(other);
    }
    assert_eq!(add_user_after_insert(inserted).unwrap().message, "Error insert mongodb");
    assert_eq!(store, vec![jane()]);
    assert_eq!(get_user_by_username(search(&store, "janedoe149")), Ok(jane()));
}
