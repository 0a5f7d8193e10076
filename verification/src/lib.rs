pub mod entry;
pub mod store;
