pub mod types;
pub mod euler;
pub mod basic;
pub mod trigonometry;
pub mod riemann;
pub mod utils;
