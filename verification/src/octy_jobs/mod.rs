pub mod models;
pub mod services;

pub use crate::amqp::AmqpOutcome;
pub mod queue;
pub mod store;
pub mod replies;
pub mod pass;
