pub mod grammar;
pub mod operator;
pub mod operator_laws;
pub mod syntax;
pub mod syntax_tree;
