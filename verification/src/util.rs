pub mod condition;
