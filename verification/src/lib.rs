pub mod api;
pub mod cli;
pub mod config;
pub mod dashboard;
pub mod logging;
pub mod process_manager;
pub mod providers;
pub mod router;
pub mod text;
pub mod token;
pub mod types;
