//! The decisions behind the REST API, the observability store and the API's
//! data shapes.

pub mod movement;
pub mod observability;
pub mod service;
pub mod tasks;
pub mod types;
pub mod views;
