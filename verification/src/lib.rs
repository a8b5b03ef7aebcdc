pub mod chars;
pub mod laws;
pub mod model;
pub mod numbers;
pub mod token;
pub mod tokenizer;
