pub mod error;
pub mod decimal;
pub mod multiplex;
pub mod arithmetic;
pub mod basic;
pub mod factorial;
pub mod series;
pub mod constants;
pub mod rescale;
pub mod sqrt;
pub mod euler;
pub mod trigonometry;
pub mod complex;
pub mod identities;
