pub mod billing;
pub mod errors;
pub mod handlers;
pub mod lot;
pub mod model;
pub mod time;
