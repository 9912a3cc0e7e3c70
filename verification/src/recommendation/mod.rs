pub mod models;

pub use crate::amqp::AmqpOutcome;
pub mod services;
pub mod replies;
