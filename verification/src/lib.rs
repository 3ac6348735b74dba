pub mod engine;
pub mod generator;
pub mod market;
pub mod model;
pub mod portfolio;
pub mod seqs;
pub mod store;
pub mod text;
