pub mod models;
pub mod records;
pub mod store;
pub mod replies;
