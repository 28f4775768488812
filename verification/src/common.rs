pub mod fileinfo;
pub mod natural;
pub mod resolver;
pub mod text;
