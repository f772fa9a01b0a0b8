//! The logic of a TodoMVC web application: the browser client keeps a list
//! of todo entries and talks GraphQL to a server that stores users and todos
//! in MongoDB.
//!
//! Everything here is plain computation: the client's state machine, the
//! rules that turn HTTP outcomes into errors, and the server's decisions on
//! what database outcomes become GraphQL answers. Network, storage and
//! rendering happen around this crate.

pub mod text;
pub mod client;
pub mod server;
