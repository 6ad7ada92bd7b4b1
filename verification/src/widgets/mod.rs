pub mod display;
pub mod input;
