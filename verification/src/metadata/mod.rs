pub mod inspect;
pub mod types;
pub mod store;
