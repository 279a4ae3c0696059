pub mod context;
pub mod document;
pub mod executor;
pub mod gate;
pub mod routes;
pub mod schema;
pub mod subject;
pub mod text;
