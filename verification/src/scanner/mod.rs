pub mod laws;
pub mod scanner;
pub mod token;
pub mod token_type;
