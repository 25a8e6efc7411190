pub mod types;
pub mod basic;
