pub mod build;
pub mod cli;
pub mod fetch;
pub mod lexer;
pub mod paths;
pub mod setup;
pub mod tasks;
pub mod text;
pub mod tools;
pub mod utils;
