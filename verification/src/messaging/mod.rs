pub mod assembly;
pub mod content;
pub mod currency;
pub mod engine;
pub mod generate;
pub mod models;
pub mod records;
pub mod rewards;
pub mod sources;
pub mod templates;
pub mod replies;
pub mod printable;
