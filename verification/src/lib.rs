pub mod coordinator;
pub mod endpoint;
pub mod outcome;
