use vstd::prelude::*;

pub mod text;
pub mod json;
pub mod fields;
pub mod billing;
pub mod dates;
pub mod gateway;
pub mod amqp;
pub mod profiles;
pub mod events;
pub mod items;
pub mod messaging;
pub mod octy_jobs;
pub mod recommendation;
pub mod replies;

verus! {
} // verus!
