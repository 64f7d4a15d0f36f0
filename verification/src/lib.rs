//! Verified core of a service that polls space-data feeds, stores what it
//! fetched and answers queries about the newest values.

pub mod config;
pub mod document;
pub mod domain;
pub mod handlers;
pub mod instant;
pub mod repositories;
pub mod services;
pub mod text;
