pub mod depth;
pub mod eval;
pub mod metadata;
pub mod printer;
pub mod syntax;
