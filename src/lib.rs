pub mod discovery;
pub mod error;
pub mod laws;
pub mod manager;
pub mod plugin;
