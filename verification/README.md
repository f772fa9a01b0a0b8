# todo_graphql

A TodoMVC application: a Yew client that keeps a list of todos and a server
that answers GraphQL (async-graphql on actix-web) over MongoDB.

- `src/` is the verified library (Verus):
  - `text.rs`: decimal rendering, whitespace trimming, concatenation.
  - `client/state.rs`: entries, filters and the list operations.
  - `client/app.rs`: the component's messages, its state transition and
    effects, and the drawing decisions.
  - `client/utils.rs`, `client/services.rs`, `client/types.rs`: request
    building and the rules that turn HTTP outcomes into errors.
  - `server/model.rs`: users and todos, and what each GraphQL operation
    answers for each database outcome; models of the two collections, with
    proved laws: `addUser` then `getUser`, what `setTodos` stores, and
    `setTodos` then `getTodos`.
  - `server/handlers.rs`: the playground page and the REST replies.
- `app/` is the program around it (the server natively, the client when
  built for the browser): MongoDB and HTTP calls, the GraphQL
  schema, the Yew component and the browser requests.
- `tests/` exercises the library on concrete values.
