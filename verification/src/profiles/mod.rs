pub mod models;
pub mod services;
pub mod utils;
pub use crate::amqp::AmqpOutcome;
pub mod keys;
pub mod listing;
pub mod meta;
pub mod query;
pub mod records;
pub mod replies;
