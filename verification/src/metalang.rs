pub mod eval;
pub mod parser;
pub mod printer;
pub mod syntax;
