pub mod allocation;
pub mod candidates;
pub mod laws;
pub mod model;
pub mod session;
pub mod story;
pub mod wishes;
