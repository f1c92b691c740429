pub mod assoc;
pub mod ast;
pub mod discovery;
pub mod embeddings;
pub mod error;
pub mod graph;
pub mod incremental;
pub mod parser;
pub mod patterns;
pub mod pipeline;
pub mod relationships;
pub mod symbols;
pub mod text;
