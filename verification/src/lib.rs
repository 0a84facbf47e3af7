pub mod lexer;
pub mod scan;
pub mod token;
