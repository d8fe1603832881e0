pub mod expr;
pub mod item;
pub mod path;
