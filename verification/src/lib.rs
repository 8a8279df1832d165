//! Hops: routes URLs to the right browser according to user rules.
pub mod browsers;
pub mod config;
pub mod models;
pub mod picker;
pub mod registration;
pub mod routing;
pub mod sorting;
pub mod text;
pub mod trusted;
