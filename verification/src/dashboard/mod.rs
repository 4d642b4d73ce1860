pub mod handlers;
pub mod pages;
pub mod templates;
