//! What holds of the middleware as a whole.
pub mod access;
pub mod breaker;
pub mod limits;
pub mod log;
pub mod records;
pub mod requests;
pub mod state;
