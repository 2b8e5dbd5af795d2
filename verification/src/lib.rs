pub mod client;
pub mod error;
pub mod laws;
pub mod state;
pub mod transaction;
