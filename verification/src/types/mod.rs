pub mod normalized;
pub mod openai;
