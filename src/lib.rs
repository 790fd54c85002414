pub mod ast;
pub mod commands;
pub mod engine;
pub mod equivalent;
pub mod regex;
pub mod render;
pub mod text;
