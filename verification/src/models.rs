pub mod config;
pub mod message;
pub mod notify;
pub mod state;
