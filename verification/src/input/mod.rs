pub mod history;
pub mod macros;
pub mod templates;
