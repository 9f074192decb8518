//! A key-value store that keeps each key in a file of its own under one
//! directory. This library holds the store's decisions: which lock guards a
//! key, where a key's file lives, which requests are admitted, how the outcome
//! of each file operation is classified and how the answers are written.
pub mod file_system;
pub mod http_server;
pub mod text;
