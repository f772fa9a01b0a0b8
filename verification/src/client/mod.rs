pub mod utils;
pub mod state;
pub mod app;
pub mod types;
pub mod services;
