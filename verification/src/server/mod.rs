pub mod model;
pub mod handlers;
