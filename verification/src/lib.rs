pub mod token_type;
pub mod builder;
pub mod runner;
pub mod executor;
pub mod pattern;
pub mod tokenizer;
pub mod classifier;
