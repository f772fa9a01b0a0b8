use todo_graphql::client::services::{graphql_path, todo_path, todos_path, GetTodos, SetTodos};
use todo_graphql::client::state::Entry;
use todo_graphql::client::types::{Error, ErrorInfo, TodoListInfo};
use todo_graphql::client::utils::{
    allows_body, body_result, limit, request_url, response_step, unprocessable, Method, ResponseStep,
};
use todo_graphql::text::{decimal_string, is_white_space, join_str, trim};

#[test]
fn limit_first_page_has_no_offset() {
    assert_eq!(limit(20, 0), "limit=20&offset=0");
}

#[test]
fn limit_later_pages_skip_whole_pages() {
    assert_eq!(limit(20, 2), "limit=20&offset=40");
    assert_eq!(limit(7, 3), "limit=7&offset=21");
    assert_eq!(limit(0, 5), "limit=0&offset=0");
}

#[test]
fn decimal_rendering() {
    assert_eq!(decimal_string(0), "0");
    assert_eq!(decimal_string(9), "9");
    assert_eq!(decimal_string(10), "10");
    assert_eq!(decimal_string(4_294_967_295), "4294967295");
}

#[test]
fn trimming() {
    assert_eq!(trim("  a b  "), "a b");
    assert_eq!(trim("\t\nx\r\n"), "x");
    assert_eq!(trim("   "), "");
    assert_eq!(trim(""), "");
    assert_eq!(trim("\u{3000}é\u{a0}"), "é");
    assert_eq!(join_str("ab", "cd"), "abcd");
}

#[test]
fn only_post_and_put_carry_a_body() {
    assert!(allows_body(Method::Post));
    assert!(allows_body(Method::Put));
    assert!(!allows_body(Method::Get));
    assert!(!allows_body(Method::Delete));
}

#[test]
fn urls_and_paths() {
    assert_eq!(request_url("http://localhost:8080/api", "/graphql"), "http://localhost:8080/api/graphql");
    assert_eq!(graphql_path(), "/graphql");
    assert_eq!(todos_path(), "/todos");
    assert_eq!(todo_path("5"), "/todos/5");
}

fn is_fail(step: ResponseStep, expected: &str) -> bool {
    match step {
        ResponseStep::Fail(e) => {
            let name = match e {
                Error::Unauthorized => "Unauthorized",
                Error::Forbidden => "Forbidden",
                Error::NotFound => "NotFound",
                Error::UnprocessableEntity(_) => "UnprocessableEntity",
                Error::InternalServerError => "InternalServerError",
                Error::DeserializeError => "DeserializeError",
                Error::RequestError => "RequestError",
            };
            name == expected
        },
        _ => false,
    }
}

#[test]
fn response_statuses() {
    assert!(matches!(response_step(Some((true, 200))), ResponseStep::ReadBody));
    assert!(matches!(response_step(Some((false, 422))), ResponseStep::ReadErrorInfo));
    assert!(is_fail(response_step(None), "RequestError"));
    assert!(is_fail(response_step(Some((false, 401))), "Unauthorized"));
    assert!(is_fail(response_step(Some((false, 403))), "Forbidden"));
    assert!(is_fail(response_step(Some((false, 404))), "NotFound"));
    assert!(is_fail(response_step(Some((false, 500))), "InternalServerError"));
    assert!(is_fail(response_step(Some((false, 418))), "RequestError"));
}

#[test]
fn bodies_that_do_not_parse() {
    assert!(matches!(body_result(Some(3u8)), Ok(3)));
    assert!(matches!(body_result::<u8>(None), Err(Error::DeserializeError)));
    let info = ErrorInfo { errors: vec![("title".to_string(), vec!["too short".to_string()])] };
    match unprocessable(Some(info)) {
        Error::UnprocessableEntity(i) => assert_eq!(i.errors[0].1[0], "too short"),
        _ => panic!("expected the server's description"),
    }
    assert!(matches!(unprocessable(None), Error::DeserializeError));
}

#[test]
fn operation_names() {
    assert_eq!(GetTodos::operation_name(), "GetTodos");
    assert_eq!(SetTodos::operation_name(), "SetTodos");
}

#[test]
fn set_todos_variables_carry_every_entry() {
    let list = TodoListInfo {
        todos: vec![
            Entry { id: 4, description: "a".to_string(), completed: true, editing: false },
            Entry { id: u32::MAX, description: "b".to_string(), completed: false, editing: true },
        ],
    };
    let v = SetTodos::variables(&list);
    assert_eq!(v.data.todos.len(), 2);
    assert_eq!(v.data.todos[0].id, 4);
    assert_eq!(v.data.todos[0].description, "a");
    assert!(v.data.todos[0].completed);
    assert_eq!(v.data.todos[1].id, 4_294_967_295i64);
    assert!(v.data.todos[1].editing);
}

#[test]
fn whitespace_characters() {
    for c in ['\t', '\n', '\u{b}', '\u{c}', '\r', ' ', '\u{85}', '\u{a0}', '\u{1680}', '\u{2000}', '\u{200a}', '\u{2028}', '\u{2029}', '\u{202f}', '\u{205f}', '\u{3000}'] {
        assert!(is_white_space(c));
        assert_eq!(is_white_space(c), c.is_whitespace());
    }
    for c in ['a', '0', '\u{8}', '\u{e}', '\u{200b}', '\u{feff}', 'é'] {
        assert!(!is_white_space(c));
        assert_eq!(is_white_space(c), c.is_whitespace());
    }
    for n in 0u32..0x3100 {
        if let Some(c) = char::from_u32(n) {
            assert_eq!(is_white_space(c), c.is_whitespace(), "U+{:04X}", n);
        }
    }
}
