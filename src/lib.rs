pub mod text;
pub mod game;
pub mod field;
pub mod parser;
pub mod lemmas;
pub mod query_result;
