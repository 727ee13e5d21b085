pub mod tokens;
pub mod rules;
pub mod tree;
pub mod laws;
