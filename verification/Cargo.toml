[package]
name = "todo_graphql"
version = "0.1.0"
edition = "2021"
publish = false

[dependencies]
async-graphql = "4"
async-graphql-actix-web = "4"
actix-web = "4"
actix-cors = "0.6"
mongodb = "2"
futures = "0.3"
serde = { version = "1", features = ["derive"] }
serde_json = "1"
log = "0.4"
yew = "0.19"
gloo = "0.6"
reqwasm = "0.5"
wasm-bindgen-futures = "0.4"
web-sys = { version = "0.3", features = ["HtmlInputElement"] }
wasm-logger = "0.2"
strum = { version = "0.24", features = ["derive"] }
dotenv = "0.15"
