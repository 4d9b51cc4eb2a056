//! The client accounts domain: data model and services.

pub mod model;
pub mod service;
