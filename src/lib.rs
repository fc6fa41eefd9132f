//! Owner-scoped task and time tracking: the rules of the service, verified.

pub mod analytics;
pub mod auth;
pub mod calendar;
pub mod entries;
pub mod error;
pub mod guard;
pub mod model;
pub mod paging;
pub mod patch;
pub mod rank;
pub mod store;
pub mod tasks;
pub mod text;
pub mod window;
