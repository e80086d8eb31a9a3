pub mod parser;
pub mod registry;
