pub mod models;
pub mod services;
pub mod verify;
pub use crate::amqp::AmqpOutcome;
pub use crate::gateway::GatewayExt;
pub mod reads;
pub mod records;
pub mod replies;
