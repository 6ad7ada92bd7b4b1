pub mod collapse;
pub mod highlight;
pub mod search;
