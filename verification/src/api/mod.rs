pub mod chat;
pub mod models;
