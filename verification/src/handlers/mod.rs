//! The response handlers a route can be served by.

pub mod iterating_response;
pub mod random_response;
pub mod single_response;

pub use iterating_response::{IteratingKind, IteratingResponse, IteratingResponseView};
pub use random_response::{RandomResponse, RandomResponseView};
pub use single_response::{SingleResponse, SingleResponseView};
