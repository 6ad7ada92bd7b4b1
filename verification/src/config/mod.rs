pub mod defaults;
pub mod manager;
