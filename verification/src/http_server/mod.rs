pub mod delete_keys;
pub mod get_keys;
pub mod get_values;
pub mod server;
pub mod store_values;
